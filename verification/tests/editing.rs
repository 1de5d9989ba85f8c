use xwiki::api::{error_from_response, network_error};
use xwiki::api::dto::ApiErrorBody;
use xwiki::editing::{
    attachment_path, attachment_upload, download_destination, draft_target, export_path,
    hard_delete_confirmed, has_unsaved_edits, is_revision_conflict, plan_save, rename_target,
    share_url, short_sha, tree_op_message, TreeOp,
};

#[test]
fn save_moves_then_writes_at_the_new_path() {
    let plan = plan_save("docs/a.md", " b.md ", " msg ", "text".into()).unwrap();
    assert_eq!(plan.target_path, "docs/b.md");
    assert_eq!(plan.message, "msg");
    assert_eq!(plan.changes.len(), 2);
    assert_eq!(plan.changes[0].op, "move");
    assert_eq!(plan.changes[0].path, "docs/a.md");
    assert_eq!(plan.changes[0].new_path.as_deref(), Some("docs/b.md"));
    assert_eq!(plan.changes[1].op, "update");
    assert_eq!(plan.changes[1].path, "docs/b.md");
    assert_eq!(plan.changes[1].content.as_deref(), Some("text"));

    let plan = plan_save("docs/a.md", "a.md", "m", "t".into()).unwrap();
    assert_eq!(plan.changes.len(), 1, "same path: no move");
    let plan = plan_save("docs/a.md", "other/c.md", "m", "t".into()).unwrap();
    assert_eq!(plan.target_path, "other/c.md", "a title with a slash is a full path");
    let plan = plan_save("top.md", "new.md", "m", "t".into()).unwrap();
    assert_eq!(plan.target_path, "new.md");
    assert_eq!(plan_save("a.md", "", "m", "t".into()).err().as_deref(), Some("文档路径不能为空"));
    assert_eq!(plan_save("a.md", "a.md", " ", "t".into()).err().as_deref(), Some("需要提交消息"));
}

#[test]
fn unsaved_edits_are_content_message_or_title() {
    assert!(!has_unsaved_edits(false, "x", "y", "m", Some("a.md"), "b"));
    assert!(!has_unsaved_edits(true, "x", "x", " ", Some("docs/a.md"), " a.md "));
    assert!(has_unsaved_edits(true, "x2", "x", "", Some("docs/a.md"), "a.md"));
    assert!(has_unsaved_edits(true, "x", "x", "msg", Some("docs/a.md"), "a.md"));
    assert!(has_unsaved_edits(true, "x", "x", "", Some("docs/a.md"), "b.md"));
    assert!(!has_unsaved_edits(true, "x", "x", "", None, "b.md"));
}

#[test]
fn rename_keeps_the_directory() {
    assert_eq!(rename_target("docs/a.md", " b.md ").as_deref(), Ok("docs/b.md"));
    assert_eq!(rename_target("a.md", "b.md").as_deref(), Ok("b.md"));
    assert_eq!(rename_target("docs/a.md", "x/y").err().as_deref(), Some("名称不能为空且不能包含斜杠"));
    assert_eq!(rename_target("docs/a.md", "  ").err().as_deref(), Some("名称不能为空且不能包含斜杠"));
}

#[test]
fn small_paths_and_texts() {
    assert_eq!(draft_target("  ", "a.md"), "a.md");
    assert_eq!(draft_target(" b.md ", "a.md"), "b.md");
    assert_eq!(share_url("http://h:9090/", "/s/tok"), "http://h:9090/s/tok");
    assert_eq!(share_url("http://h", "https://x/s/1"), "https://x/s/1");
    assert_eq!(short_sha("0123456789"), "0123456");
    assert_eq!(short_sha("abc"), "abc");
    assert_eq!(export_path("zip", ""), "project.zip");
    assert_eq!(export_path("bundle", " "), "project.bundle");
    assert_eq!(export_path("zip", "out.zip"), "out.zip");
    assert_eq!(download_destination("", "attachments/a.png"), "a.png");
    assert_eq!(download_destination("x.png", "attachments/a.png"), "x.png");
    assert_eq!(attachment_path("a.png"), "attachments/a.png");
    assert!(hard_delete_confirmed(" 确认删除 "));
    assert!(hard_delete_confirmed("确认删除"));
    assert!(!hard_delete_confirmed("docs/a.md"));
    assert!(!hard_delete_confirmed("确认"));
    assert_eq!(tree_op_message(TreeOp::Rename, true), "重命名目录");
    assert_eq!(tree_op_message(TreeOp::Delete, false), "删除文档");
    assert_eq!(tree_op_message(TreeOp::Purge, true), "彻底删除目录");
}

#[test]
fn revision_conflicts_are_recognised() {
    let conflict = error_from_response(
        409,
        Some(ApiErrorBody { code: "revision_conflict".into(), message: "stale".into(), request_id: None }),
    );
    assert!(is_revision_conflict(&conflict));
    assert!(!is_revision_conflict(&network_error("x")));
}

#[test]
fn attachment_upload_is_base64_under_attachments() {
    let c = attachment_upload("a.txt", b"hi");
    assert_eq!(c.op, "create");
    assert_eq!(c.path, "attachments/a.txt");
    assert_eq!(c.content, "aGk=");
    assert_eq!(c.encoding, "base64");
    assert_eq!(attachment_upload("b", b"").content, "");
    assert_eq!(attachment_upload("m", b"Man").content, "TWFu");
    assert_eq!(attachment_upload("m", b"M").content, "TQ==");
    assert_eq!(attachment_upload("m", &[0xff, 0xfe, 0xfd, 0x00]).content, "//79AA==");
}

#[test]
fn delete_prompt_names_the_entry() {
    assert_eq!(
        xwiki::editing::delete_entry_prompt("docs/guide", true),
        "目录「guide」及其全部内容将被删除。\n保留历史：可恢复；彻底删除：重写 Git 历史，不可恢复。"
    );
    assert_eq!(
        xwiki::editing::delete_entry_prompt("a.md", false),
        "文档「a.md」将被删除。\n保留历史：可恢复；彻底删除：重写 Git 历史，不可恢复。"
    );
}
