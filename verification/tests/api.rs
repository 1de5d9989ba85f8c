use xwiki::api::dto::{ApiErrorBody, Meta, MetaLimits};
use xwiki::api::routes::{bearer_value, latest_release_url, route, Endpoint, Method};
use xwiki::api::{
    api_version_supported, base_url, check_meta, chunk_exceeds_limit, declared_length_too_large,
    endpoint_url, error_from_response, initial_capacity, lock_missing, network_error,
    response_too_large, session_cookie, unsupported_api_version, ApiError,
    MAX_BUFFERED_RESPONSE_BYTES,
};

fn meta(api_version: &str) -> Meta {
    Meta {
        version: "0.9.0".into(),
        api_version: api_version.into(),
        limits: MetaLimits {
            max_doc_bytes: 1,
            max_import_bytes: 2,
            max_diff_bytes: 3,
            max_changes_per_request: 4,
        },
        capabilities: vec![],
    }
}

fn pairs(q: &[(String, String)]) -> Vec<(&str, &str)> {
    q.iter().map(|(k, v)| (k.as_str(), v.as_str())).collect()
}

#[test]
fn routes_put_arguments_into_path_and_query() {
    let r = route(&Endpoint::Tree { project_id: "p1".into(), path: "docs".into() });
    assert_eq!(r.method, Method::Get);
    assert_eq!(r.path, "/api/v1/projects/p1/docs/tree");
    assert_eq!(pairs(&r.query), [("path", "docs")]);

    let r = route(&Endpoint::Commits {
        project_id: "p1".into(),
        query: "fix".into(),
        limit: 20,
        offset: 40,
    });
    assert_eq!(r.path, "/api/v1/projects/p1/commits");
    assert_eq!(pairs(&r.query), [("q", "fix"), ("limit", "20"), ("offset", "40")]);

    let r = route(&Endpoint::Audit { project_id: "p1".into(), offset: 50 });
    assert_eq!(r.path, "/api/v1/projects/p1/audit");
    assert_eq!(pairs(&r.query), [("offset", "50")]);
    let r = route(&Endpoint::Audit { project_id: "p1".into(), offset: 0 });
    assert_eq!(pairs(&r.query), [("offset", "0")]);

    let r = route(&Endpoint::PageAt {
        project_id: "p1".into(),
        path: "a/b.md".into(),
        revision: "r9".into(),
    });
    assert_eq!(r.path, "/api/v1/projects/p1/docs/pages/a/b.md");
    assert_eq!(pairs(&r.query), [("format", "raw"), ("at", "r9")]);

    let r = route(&Endpoint::SetArchived { project_id: "p2".into(), archived: false });
    assert_eq!((r.method, r.path.as_str()), (Method::Post, "/api/v1/projects/p2/unarchive"));
    let r = route(&Endpoint::SetUserEnabled { id: "u7".into(), enabled: true });
    assert_eq!(r.path, "/api/v1/users/u7/enable");
    let r = route(&Endpoint::ReleaseLock { project_id: "p".into(), path: "x.md".into() });
    assert_eq!((r.method, r.path.as_str()), (Method::Delete, "/api/v1/projects/p/locks"));
    let r = route(&Endpoint::CommitPatch { project_id: "p".into(), sha: "abc".into() });
    assert_eq!(r.path, "/api/v1/projects/p/commits/abc/diff");
    assert_eq!(pairs(&r.query), [("format", "patch")]);
    let r = route(&Endpoint::RenameProject { project_id: "p".into() });
    assert_eq!((r.method, r.path.as_str()), (Method::Patch, "/api/v1/projects/p"));
    let r = route(&Endpoint::Meta);
    assert_eq!((r.method, r.path.as_str()), (Method::Get, "/api/v1/meta"));
    assert!(r.query.is_empty());
}

#[test]
fn header_and_release_urls() {
    assert_eq!(bearer_value("ad_x"), "Bearer ad_x");
    assert_eq!(
        latest_release_url("o", "r"),
        "https://api.github.com/repos/o/r/releases/latest"
    );
}

#[test]
fn base_url_drops_trailing_slashes() {
    assert_eq!(base_url("http://h:9090///"), "http://h:9090");
    assert_eq!(base_url(&base_url("http://h/")), "http://h");
    assert_eq!(endpoint_url("http://h", "/api/v1/meta"), "http://h/api/v1/meta");
}

#[test]
fn errors_keep_envelope_or_status() {
    let e = error_from_response(
        409,
        Some(ApiErrorBody {
            code: "revision_conflict".into(),
            message: "stale".into(),
            request_id: Some("req_x".into()),
        }),
    );
    assert_eq!(e.code, "revision_conflict");
    assert_eq!(e.status, 409);
    assert_eq!(e.display(), "revision_conflict (409): stale [req_x]");
    let e = error_from_response(502, None);
    assert_eq!((e.code.as_str(), e.message.as_str()), ("http_error", "HTTP 502"));
    assert_eq!(network_error("refused").display(), "network_error (0): 无法连接服务: refused");
    assert_eq!(lock_missing().status, 500);
    assert_eq!(response_too_large(200).message, "响应超过 128 MiB 内存缓冲限制");
}

#[test]
fn api_version_must_be_one() {
    assert!(api_version_supported("1"));
    assert!(!api_version_supported("2"));
    assert!(check_meta(Ok(meta("1"))).is_ok());
    let e = check_meta(Ok(meta("2"))).unwrap_err();
    assert_eq!(e.code, "unsupported_api_version");
    assert_eq!(e.message, "服务器 API 版本 2 不受支持，请升级客户端");
    assert_eq!(e.status, 400);
    assert_eq!(unsupported_api_version("2").message, e.message);
    let passed: ApiError = check_meta(Err(network_error("down"))).unwrap_err();
    assert_eq!(passed.code, "network_error");
}

#[test]
fn session_cookie_joins_cookie_pairs() {
    let values = vec![
        Some("sid=abc; Path=/; HttpOnly".to_string()),
        None,
        Some("  ; Path=/".to_string()),
        Some("theme=dark".to_string()),
    ];
    assert_eq!(session_cookie(&values).as_deref(), Some("sid=abc; theme=dark"));
    assert_eq!(session_cookie(&[None]), None);
}

#[test]
fn buffered_responses_stay_under_the_limit() {
    let max = MAX_BUFFERED_RESPONSE_BYTES;
    assert!(declared_length_too_large(Some(max as u64 + 1)));
    assert!(!declared_length_too_large(Some(max as u64)));
    assert!(!declared_length_too_large(None));
    assert_eq!(initial_capacity(Some(10)), 10);
    assert_eq!(initial_capacity(Some(u64::MAX)), max);
    assert_eq!(initial_capacity(None), 0);
    assert!(chunk_exceeds_limit(max, 1));
    assert!(!chunk_exceeds_limit(max - 1, 1));
    assert!(chunk_exceeds_limit(0, usize::MAX));
}
