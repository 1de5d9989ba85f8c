use xwiki::api::dto::{AuditResponse, Project};
use xwiki::workspace::{
    audit_entry, audit_page_offset, choose_audit_project, merge_audit_page, window_title,
    ProjectList, ProjectRow, Screen,
};

fn project(id: &str, name: &str, archived: bool) -> Project {
    Project {
        id: id.into(),
        name: name.into(),
        description: "desc".into(),
        archived,
        created_at: "2026-01-01T00:00:00Z".into(),
        updated_at: "2026-02-03T04:05:06Z".into(),
    }
}

fn row(id: &str, name: &str) -> ProjectRow {
    ProjectRow::from_dto(&project(id, name, false))
}

#[test]
fn audit_page_offset_is_zero_on_reset_and_len_after() {
    assert_eq!(audit_page_offset(true, 42), 0);
    assert_eq!(audit_page_offset(false, 42), 42);
    assert_eq!(audit_page_offset(false, 0), 0);
}

#[test]
fn audit_pagination_merge_resets_then_appends() {
    let mut entries = vec![audit_entry("a"), audit_entry("b")];

    // Append page 2: keeps loaded rows, extends them, carries has_more.
    let has_more = merge_audit_page(
        &mut entries,
        AuditResponse {
            entries: vec![audit_entry("c"), audit_entry("d")],
            has_more: true,
        },
        false,
    );
    assert!(has_more, "append page must keep has_more");
    assert_eq!(
        entries.iter().map(|e| e.id.as_str()).collect::<Vec<_>>(),
        ["a", "b", "c", "d"]
    );

    // Reset (project switch / reload): the list is replaced entirely.
    let has_more = merge_audit_page(
        &mut entries,
        AuditResponse {
            entries: vec![audit_entry("x")],
            has_more: false,
        },
        true,
    );
    assert!(!has_more, "last page must clear has_more");
    assert_eq!(
        entries.iter().map(|e| e.id.as_str()).collect::<Vec<_>>(),
        ["x"]
    );
}

#[test]
fn audit_entry_fills_the_fixed_fields() {
    let e = audit_entry("q");
    assert_eq!(e.id, "q");
    assert_eq!(e.actor_type, "user");
    assert_eq!(e.actor_id, "u1");
    assert_eq!(e.project_id, "p1");
    assert_eq!(e.action, "change");
    assert!(e.path.is_empty() && e.detail.is_empty() && e.request_id.is_empty());
    assert!(e.created_at.is_empty());
}

#[test]
fn project_row_keeps_the_date_of_updated_at() {
    let r = ProjectRow::from_dto(&project("p1", "Proj", true));
    assert_eq!(r.id, "p1");
    assert_eq!(r.name, "Proj");
    assert_eq!(r.description, "desc");
    assert_eq!(r.updated, "2026-02-03");
    assert!(r.archived);
    let mut p = project("p2", "Two", false);
    p.updated_at = "yesterday".into();
    assert_eq!(ProjectRow::from_dto(&p).updated, "yesterday");
}

#[test]
fn window_title_names_project_and_document() {
    let rows = vec![row("p1", "Proj")];
    assert_eq!(window_title(Screen::Workspace, &rows, Some("p1"), None), "XWiki — Proj");
    assert_eq!(
        window_title(Screen::Workspace, &rows, Some("p1"), Some("docs/a.md")),
        "XWiki — Proj / docs/a.md"
    );
    assert_eq!(window_title(Screen::Workspace, &rows, Some("p9"), None), "XWiki — p9");
    assert_eq!(window_title(Screen::Workspace, &rows, None, None), "XWiki");
    assert_eq!(window_title(Screen::Settings, &rows, Some("p1"), None), "XWiki — 设置");
    assert_eq!(window_title(Screen::Login, &rows, Some("p1"), None), "XWiki");
}

#[test]
fn audit_project_keeps_pick_then_open_then_first() {
    let projects = vec![project("p1", "A", false), project("p2", "B", false)];
    assert_eq!(choose_audit_project(Some("p2"), Some("p1"), &projects).as_deref(), Some("p2"));
    assert_eq!(choose_audit_project(Some("gone"), Some("p2"), &projects).as_deref(), Some("p2"));
    assert_eq!(choose_audit_project(None, Some("gone"), &projects).as_deref(), Some("p1"));
    assert_eq!(choose_audit_project(Some("x"), None, &[]), None);
}

#[test]
fn project_list_applies_server_results() {
    let mut list = ProjectList {
        rows: vec![row("p1", "One"), row("p2", "Two")],
        action: None,
    };
    assert!(list.begin_action("p1"));
    assert!(!list.begin_action("p2"), "one operation at a time");
    let notice = list.archive_done(&project("p1", "One", true));
    assert_eq!(notice, "项目已归档");
    assert!(list.rows[0].archived && !list.rows[1].archived);
    assert!(list.action.is_none());

    let notice = list.rename_done(&project("p2", "Deux", false));
    assert_eq!(notice, "已重命名为 Deux");
    assert_eq!(list.rows[1].name, "Deux");
    assert_eq!(list.rows[1].id, "p2");

    assert!(list.delete_done("p1", Some("p1")));
    assert_eq!(list.rows.len(), 1);
    assert_eq!(list.rows[0].id, "p2");
    assert!(!list.delete_done("p7", Some("p2")));

    let e = xwiki::api::network_error("refused");
    list.begin_action("p2");
    let status = list.action_failed("删除", &e);
    assert_eq!(status, "删除失败: network_error (0): 无法连接服务: refused");
    assert!(list.action.is_none());
}

use xwiki::workspace::{doc_reply_current, project_reply_current, tree_reply_current};

#[test]
fn stale_replies_are_recognised() {
    assert!(project_reply_current(Some("p1"), "p1"));
    assert!(!project_reply_current(Some("p2"), "p1"));
    assert!(!project_reply_current(None, "p1"));
    assert!(tree_reply_current(Some("p1"), "p1", "docs", "docs"));
    assert!(!tree_reply_current(Some("p1"), "p1", "docs/x", "docs"));
    assert!(doc_reply_current(Some("p1"), "p1", Some("a.md"), "a.md"));
    assert!(!doc_reply_current(Some("p1"), "p1", None, "a.md"));
}

use xwiki::workspace::{archive_prompt, delete_project_prompt, new_project_form};

#[test]
fn new_projects_join_the_list() {
    let mut list = ProjectList { rows: vec![row("p1", "One")], action: None };
    assert!(list.begin_action("__new-project__"));
    assert_eq!(list.create_done(&project("p3", "Three", false)), "项目已创建");
    assert_eq!(list.rows.len(), 2);
    assert_eq!(list.rows[1].id, "p3");
    assert_eq!(list.rows[1].updated, "2026-02-03");
    assert!(list.action.is_none());
    assert_eq!(new_project_form("  ", "d"), None);
    assert_eq!(
        new_project_form(" kb ", " docs "),
        Some(("kb".to_string(), "docs".to_string()))
    );
}

#[test]
fn project_prompts() {
    assert_eq!(archive_prompt(true).0, "归档项目");
    assert_eq!(archive_prompt(false), ("恢复项目", "恢复后项目会重新出现在活跃项目视图中。"));
    assert_eq!(delete_project_prompt("kb"), "项目「kb」及其全部 Git 历史将被彻底删除，无法恢复。");
}

use xwiki::workspace::{browser_return, BrowserReturn};

#[test]
fn back_to_the_file_list() {
    assert_eq!(browser_return(true, true, "docs"), BrowserReturn::Refused);
    assert_eq!(browser_return(false, true, "docs"), BrowserReturn::ReloadTree("docs".into()));
    assert_eq!(browser_return(false, false, ""), BrowserReturn::ReloadChanges);
    assert_eq!(browser_return(false, false, "docs"), BrowserReturn::Show);
}

#[test]
fn status_bar_texts() {
    let t = xwiki::workspace::status_texts(true, true, false, Some("0123456789abcdef"), Some("1.2.0"));
    assert_eq!(t.connection, "已连接");
    assert_eq!(t.lock.as_deref(), Some("编辑中 · 锁丢失"));
    assert_eq!(t.revision.as_deref(), Some("revision 0123456789ab…"));
    assert_eq!(t.server.as_deref(), Some("server v1.2.0"));
    let t = xwiki::workspace::status_texts(false, false, true, None, None);
    assert_eq!(t.connection, "未连接");
    assert!(t.lock.is_none() && t.revision.is_none() && t.server.is_none());
}
