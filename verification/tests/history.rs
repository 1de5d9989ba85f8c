use xwiki::api::dto::Commit;
use xwiki::api::network_error;
use xwiki::history::{
    detail_error, history_start, restore_change, restore_notice, restore_plan, restore_prompt,
    restored_commit, RestorePlan,
};

fn commit(sha: &str) -> Commit {
    Commit { sha: sha.into(), message: String::new(), author: String::new(), date: String::new() }
}

#[test]
fn file_history_opens_on_newest_commit() {
    let (focus, sha) = history_start(&[commit("c2"), commit("c1")]);
    assert_eq!(focus, Some(0));
    assert_eq!(sha.as_deref(), Some("c2"));
    assert_eq!(history_start(&[]), (None, None));
}

#[test]
fn detail_errors_are_labelled_and_joined() {
    let e = network_error("x");
    assert_eq!(detail_error(None, None, None), None);
    assert_eq!(
        detail_error(None, Some(&e), None).as_deref(),
        Some("差异统计: network_error (0): 无法连接服务: x")
    );
    assert_eq!(
        detail_error(Some(&e), None, Some(&e)).as_deref(),
        Some("版本详情: network_error (0): 无法连接服务: x；Diff: network_error (0): 无法连接服务: x")
    );
}

#[test]
fn restore_goes_through_file_or_revert() {
    match restore_plan(None, "abc", Some("r1")) {
        RestorePlan::RevertCommit { sha } => assert_eq!(sha, "abc"),
        other => panic!("{other:?}"),
    }
    match restore_plan(Some("a.md"), "abc", Some("r1")) {
        RestorePlan::RestoreFile { path, sha, base } => {
            assert_eq!((path.as_str(), sha.as_str(), base.as_str()), ("a.md", "abc", "r1"))
        }
        other => panic!("{other:?}"),
    }
    match restore_plan(Some("a.md"), "abc", None) {
        RestorePlan::ReadRevisionFirst { path, sha } => assert_eq!((path.as_str(), sha.as_str()), ("a.md", "abc")),
        other => panic!("{other:?}"),
    }
    let c = restore_change("a.md", "old".into());
    assert_eq!((c.op.as_str(), c.path.as_str(), c.content.as_deref()), ("update", "a.md", Some("old")));
    assert!(c.new_path.is_none());
}

#[test]
fn restore_texts() {
    assert_eq!(restore_notice("0123456789", "恢复历史版本"), "已恢复提交 0123456 · 恢复历史版本");
    assert_eq!(
        restore_prompt("abc"),
        "将以 abc 创建一个新的恢复提交，当前文档内容不会被静默覆盖。"
    );
    let c = restored_commit("c9", "ann", "2026-01-01T00:00:00Z".into());
    assert_eq!((c.sha.as_str(), c.message.as_str(), c.author.as_str()), ("c9", "恢复历史版本", "ann"));
    assert_eq!(c.date, "2026-01-01T00:00:00Z");
}
