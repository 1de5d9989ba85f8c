use xwiki::messages::delete_confirmation_error;

#[test]
fn delete_gate_accepts_confirm_phrase() {
    // The four characters 「确认删除」 — with or without surrounding space.
    assert!(delete_confirmation_error("确认删除").is_none());
    assert!(delete_confirmation_error(" 确认删除 ").is_none());
}

#[test]
fn delete_gate_rejects_wrong_input() {
    // Names, partial phrases and anything else must be rejected.
    assert!(delete_confirmation_error("README.md").is_some());
    assert!(delete_confirmation_error("确认").is_some());
    assert!(delete_confirmation_error("删除").is_some());
    assert!(delete_confirmation_error("确认删除啊").is_some());
    assert!(delete_confirmation_error("").is_some());
}

use xwiki::api::dto::{ApiErrorBody, Meta, MetaLimits};
use xwiki::api::{error_from_response, network_error, response_too_large, ApiError};
use xwiki::messages::{
    audit_projects_error, connection_report, friendly_api_error, github_release_error, login_error_message,
    login_form_error, reset_form_error, reset_outcome, reset_request_error,
    reset_request_outcome, server_or_saved, server_save, truncate, user_form_error, ServerSave,
};

fn coded(code: &str, message: &str, status: u16, request_id: Option<&str>) -> ApiError {
    error_from_response(
        status,
        Some(ApiErrorBody {
            code: code.into(),
            message: message.into(),
            request_id: request_id.map(str::to_string),
        }),
    )
}

#[test]
fn friendly_errors_by_status() {
    assert_eq!(friendly_api_error(&network_error("x")), "无法连接到服务，请检查地址和网络连接。");
    assert_eq!(friendly_api_error(&coded("a", "b", 403, None)), "服务拒绝了请求，请重新登录后再试。");
    assert_eq!(friendly_api_error(&coded("a", "b", 404, None)), "服务已响应，但未找到 XWiki 接口，请检查服务地址。");
    assert_eq!(friendly_api_error(&coded("a", "b", 422, None)), "请求未被接受（HTTP 422），请检查服务配置。");
    assert_eq!(friendly_api_error(&coded("a", "b", 503, None)), "服务暂时不可用，请稍后重试。");
    assert_eq!(friendly_api_error(&coded("a", "b", 302, None)), "连接失败（HTTP 302），请稍后重试。");
    assert_eq!(friendly_api_error(&response_too_large(200)), "响应超过 128 MiB 内存缓冲限制");
    assert_eq!(github_release_error(&coded("a", "b", 404, None)), "GitHub Releases 中没有可用的正式版本。");
    assert_eq!(github_release_error(&coded("a", "b", 418, None)), "请求失败（HTTP 418），请稍后重试。");
}

#[test]
fn login_errors_are_explained() {
    assert_eq!(
        login_error_message(&coded("invalid_credentials", "", 401, Some("req_1"))),
        "用户名或密码不正确，请检查后重试。 · 请求 ID req_1"
    );
    assert_eq!(login_error_message(&coded("other", "  ", 400, None)), "登录失败，请稍后重试。");
    assert_eq!(login_error_message(&coded("other", " bad ", 400, None)), "登录失败：bad");
    assert_eq!(login_error_message(&coded("x", "y", 500, None)), "服务暂时不可用，请稍后重试。");
    assert_eq!(truncate("abcdef", 3), "abc…");
    assert_eq!(truncate("abc", 3), "abc");
}

#[test]
fn forms_say_what_is_missing() {
    assert_eq!(login_form_error(" ", "p").as_deref(), Some("请输入用户名和密码"));
    assert_eq!(login_form_error("u", "").as_deref(), Some("请输入用户名和密码"));
    assert_eq!(login_form_error("u", "p"), None);
    assert_eq!(reset_form_error("t", "1234567").as_deref(), Some("需要 token 且新密码至少 8 个字符"));
    assert_eq!(reset_form_error("t", "12345678"), None);
    assert_eq!(reset_request_error("  ").as_deref(), Some("请输入用户名"));
    assert_eq!(user_form_error("u", "短密码").as_deref(), None, "nine bytes of UTF-8");
    assert_eq!(user_form_error("u", "短").as_deref(), Some("用户名不能为空，密码至少需要 8 个字符"));
    assert_eq!(server_or_saved("  ", "http://saved"), "http://saved");
    assert_eq!(server_or_saved(" http://h ", "http://saved"), "http://h");
}

#[test]
fn reset_and_connection_reports() {
    assert_eq!(reset_request_outcome(Ok(false)), (false, "服务器未返回确认，请稍后重试".to_string()));
    assert!(reset_request_outcome(Ok(true)).0);
    assert_eq!(
        reset_request_outcome(Err(network_error("x"))).1,
        "请求失败: network_error (0): 无法连接服务: x"
    );
    assert_eq!(reset_outcome(Ok(true)), (true, "密码已重置，请使用新密码登录".to_string()));
    assert_eq!(reset_outcome(Ok(false)).1, "服务器未确认，请重试");
    let meta = Meta {
        version: "1.4.0".into(),
        api_version: "1".into(),
        limits: MetaLimits { max_doc_bytes: 0, max_import_bytes: 0, max_diff_bytes: 0, max_changes_per_request: 0 },
        capabilities: vec![],
    };
    assert_eq!(
        connection_report(Ok(meta)),
        (true, "连接成功".to_string(), Some("服务版本 1.4.0".to_string()))
    );
    let (ok, message, detail) = connection_report(Err(coded("x", "y", 404, Some("rq"))));
    assert!(!ok);
    assert_eq!(message, "服务已响应，但未找到 XWiki 接口，请检查服务地址。");
    assert_eq!(detail.as_deref(), Some("请求 ID · rq"));
}

#[test]
fn server_address_saving() {
    match server_save("  ", "http://a") {
        ServerSave::Blank(m) => assert_eq!(m, "请输入服务地址。"),
        ServerSave::Save { .. } => panic!("saved a blank address"),
    }
    match server_save(" http://b ", "http://a") {
        ServerSave::Save { url, drop_session } => {
            assert_eq!(url, "http://b");
            assert!(drop_session);
        }
        ServerSave::Blank(_) => panic!("blank"),
    }
    match server_save("http://a", "http://a") {
        ServerSave::Save { drop_session, .. } => assert!(!drop_session),
        ServerSave::Blank(_) => panic!("blank"),
    }
}

#[test]
fn audit_project_list_failure_text() {
    assert_eq!(
        audit_projects_error(&network_error("x")),
        "项目列表加载失败：无法连接到服务，请检查地址和网络连接。"
    );
    assert_eq!(
        audit_projects_error(&coded("a", "b", 503, None)),
        "项目列表加载失败：服务暂时不可用，请稍后重试。"
    );
}
