use xwiki::api::{error_from_response, network_error};
use xwiki::api::dto::ApiErrorBody;
use xwiki::session::{find_draft, heartbeat_step, Draft, EditSession, HeartbeatAction, HeartbeatPhase};

fn draft(project: &str, path: &str, target: &str, base: &str) -> Draft {
    Draft {
        server: "http://h".into(),
        username: "ann".into(),
        project: project.into(),
        original_path: path.into(),
        target_path: target.into(),
        content: "draft body".into(),
        message: "wip".into(),
        base_revision: base.into(),
        updated_at: 0,
    }
}

fn editing(path: &str) -> EditSession {
    let mut s = EditSession::new();
    s.document_loaded("r1");
    s.begin(path, "body", None);
    s
}

#[test]
fn drafts_are_found_by_server_user_project_and_path() {
    let drafts = vec![draft("p1", "a.md", "", ""), draft("p2", "a.md", "", ""), draft("p2", "a.md", "b.md", "")];
    assert_eq!(find_draft(&drafts, "http://h", "ann", "p2", "a.md"), Some(1));
    assert_eq!(find_draft(&drafts, "http://h", "bob", "p2", "a.md"), None);
}

#[test]
fn an_edit_starts_from_the_document_or_its_draft() {
    let mut s = EditSession::new();
    s.document_loaded("r1");
    let start = s.begin("docs/a.md", "body", None);
    assert_eq!((start.content.as_str(), start.title.as_str(), start.message.as_str()), ("body", "a.md", ""));
    assert!(!start.restored && s.editing && s.lock_held);
    assert_eq!(s.base_revision.as_deref(), Some("r1"));

    let mut s = EditSession::new();
    s.document_loaded("r1");
    let d = draft("p", "docs/a.md", "docs/b.md", "r0");
    let start = s.begin("docs/a.md", "body", Some(&d));
    assert!(start.restored);
    assert_eq!((start.content.as_str(), start.title.as_str(), start.message.as_str()), ("draft body", "docs/b.md", "wip"));
    assert_eq!(s.base_revision.as_deref(), Some("r0"));
}

#[test]
fn saving_needs_the_lock_a_title_and_a_message() {
    let mut s = editing("docs/a.md");
    assert!(s.begin_save(" ", "msg", "x".into()).is_none());
    assert_eq!(s.save_error.as_deref(), Some("文档路径不能为空"));
    assert!(s.begin_save("a.md", "  ", "x".into()).is_none());
    assert_eq!(s.save_error.as_deref(), Some("需要提交消息"));
    let (plan, base) = s.begin_save("b.md", " fix ", "new".into()).unwrap();
    assert_eq!(base, "r1");
    assert_eq!(plan.target_path, "docs/b.md");
    assert_eq!(plan.message, "fix");
    assert_eq!(plan.changes.len(), 2);
    assert!(s.saving);
    assert!(s.begin_save("b.md", "fix", "new".into()).is_none(), "one save at a time");
    s.saving = false;
    s.lock_lost();
    assert!(s.begin_save("b.md", "fix", "new".into()).is_none(), "no save without the lock");
}

#[test]
fn save_replies_end_or_keep_the_edit() {
    let mut s = editing("docs/a.md");
    s.begin_save("a.md", "m", "x".into());
    let release = s.finish_save("docs/a.md", "docs/a.md", Ok("r2".into()));
    assert_eq!(release.as_deref(), Some("docs/a.md"));
    assert!(!s.editing && !s.lock_held && !s.saving);
    assert_eq!(s.base_revision.as_deref(), Some("r2"));

    let mut s = editing("docs/a.md");
    s.begin_save("a.md", "m", "x".into());
    let conflict = error_from_response(
        409,
        Some(ApiErrorBody { code: "revision_conflict".into(), message: "stale".into(), request_id: None }),
    );
    assert!(s.finish_save("docs/a.md", "docs/a.md", Err(conflict)).is_none());
    assert!(s.editing && s.lock_held, "a conflict keeps the edit");
    let c = s.conflict.clone().unwrap();
    assert_eq!((c.message.as_str(), c.path.as_str()), ("stale", "docs/a.md"));
    let (reopen, release) = s.resolve_reload();
    assert_eq!((reopen.as_deref(), release.as_deref()), (Some("docs/a.md"), Some("docs/a.md")));
    assert!(!s.editing && s.conflict.is_none());

    let mut s = editing("docs/a.md");
    s.begin_save("a.md", "m", "x".into());
    s.finish_save("docs/a.md", "docs/a.md", Err(network_error("down")));
    assert_eq!(s.save_error.as_deref(), Some("提交失败: network_error (0): 无法连接服务: down"));
    assert!(s.editing);
}

#[test]
fn cancel_releases_the_edited_path() {
    let mut s = editing("docs/a.md");
    assert_eq!(s.cancel().as_deref(), Some("docs/a.md"));
    assert!(!s.editing && s.edit_path.is_none() && s.base_revision.is_none());
    assert_eq!(s.lock_lost(), "锁续租失败，请取消编辑后重新编辑。");
}

#[test]
fn conflicts_are_forced_or_abandoned() {
    let conflict = || {
        error_from_response(
            409,
            Some(ApiErrorBody { code: "revision_conflict".into(), message: "stale".into(), request_id: None }),
        )
    };
    let mut s = editing("a.md");
    s.begin_save("a.md", "m", "x".into());
    s.finish_save("a.md", "a.md", Err(conflict()));
    s.resolve_force();
    assert!(s.conflict.is_none() && s.save_error.is_none());
    assert!(s.editing && s.lock_held);
    assert!(s.begin_save("a.md", "m", "x".into()).is_some(), "the edit is saved again");

    let mut s = editing("a.md");
    s.begin_save("a.md", "m", "x".into());
    s.finish_save("a.md", "a.md", Err(conflict()));
    assert_eq!(s.resolve_abandon().as_deref(), Some("a.md"));
    assert!(s.conflict.is_none() && !s.editing && !s.lock_held);
}

#[test]
fn heartbeat_renews_while_its_generation_is_current() {
    assert_eq!(heartbeat_step(3, 3, HeartbeatPhase::Idle), HeartbeatAction::Wait);
    assert_eq!(heartbeat_step(3, 3, HeartbeatPhase::TimerFired), HeartbeatAction::Renew);
    assert_eq!(heartbeat_step(3, 4, HeartbeatPhase::TimerFired), HeartbeatAction::Stop);
    assert_eq!(heartbeat_step(3, 4, HeartbeatPhase::Idle), HeartbeatAction::Stop);
    assert_eq!(heartbeat_step(3, 3, HeartbeatPhase::RenewFailed), HeartbeatAction::LockLost);
    assert_eq!(heartbeat_step(3, 4, HeartbeatPhase::RenewFailed), HeartbeatAction::LockLost);
}
