use xwiki::api::dto::{Token, TreeEntry};
use xwiki::api::{network_error, ApiError};
use xwiki::settings::{access_load_error, active_tokens, attachment_entries, token_form_error, token_project_ids};

fn token(id: &str, revoked_at: &str) -> Token {
    Token {
        id: id.into(),
        name: "ci".into(),
        scope: "write".into(),
        project_ids: vec![],
        created_at: String::new(),
        revoked_at: revoked_at.into(),
    }
}

#[test]
fn revoked_tokens_are_not_listed() {
    let kept = active_tokens(vec![token("a", ""), token("b", "2026-01-01"), token("c", "")]);
    let ids: Vec<&str> = kept.iter().map(|t| t.id.as_str()).collect();
    assert_eq!(ids, ["a", "c"]);
}

#[test]
fn attachments_panel_lists_files_only() {
    let entries = vec![
        TreeEntry { name: "img".into(), entry_type: "tree".into(), path: "attachments/img".into(), sha: String::new() },
        TreeEntry { name: "a.png".into(), entry_type: "blob".into(), path: "attachments/a.png".into(), sha: String::new() },
    ];
    let kept = attachment_entries(entries);
    assert_eq!(kept.len(), 1);
    assert_eq!(kept[0].name, "a.png");
}

#[test]
fn token_project_ids_are_trimmed_comma_pieces() {
    assert_eq!(token_project_ids(" p1, ,p2 ,"), vec!["p1".to_string(), "p2".to_string()]);
    assert!(token_project_ids("  ").is_empty());
    assert_eq!(token_project_ids("solo"), vec!["solo".to_string()]);
}

#[test]
fn token_form_needs_name_scope_and_project() {
    let ids = vec!["p1".to_string()];
    assert_eq!(token_form_error(" ", "write", &ids).as_deref(), Some("Token 名称和权限范围不能为空"));
    assert_eq!(token_form_error("ci", "", &ids).as_deref(), Some("Token 名称和权限范围不能为空"));
    assert_eq!(token_form_error("ci", "write", &[]).as_deref(), Some("至少选择一个项目"));
    assert_eq!(token_form_error("ci", "write", &ids), None);
}

#[test]
fn access_errors_are_joined() {
    let e: ApiError = network_error("x");
    assert_eq!(access_load_error(None, None), None);
    assert_eq!(
        access_load_error(Some(&e), None).as_deref(),
        Some("访问控制加载失败：Token：无法连接到服务，请检查地址和网络连接。")
    );
    assert_eq!(
        access_load_error(Some(&e), Some(&e)).as_deref(),
        Some("访问控制加载失败：Token：无法连接到服务，请检查地址和网络连接。；用户：无法连接到服务，请检查地址和网络连接。")
    );
}
