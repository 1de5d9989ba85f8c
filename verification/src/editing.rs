//! The editing flow's decisions: what a save sends, when an edit has
//! unsaved changes, where a rename moves a document, and the small texts
//! and paths around documents.
use vstd::prelude::*;

use crate::api::dto::Change;
use crate::api::ApiError;
use crate::messages::{delete_confirmation_error, delete_phrase};
use crate::text::{
    before_last, char_pos, lemma_char_pos_bounds, is_blank, last_segment, last_segment_of, push_str, rsplit_once_char,
    starts_with, str_eq, str_has_char, str_starts_with, take_chars, to_owned_string, trim,
    trim_end_char, trimmed,
};

verus! {

/// A change as the server reads it: operation, path, new path, content.
pub open spec fn change_view(c: Change) -> (Seq<char>, Seq<char>, Option<Seq<char>>, Option<Seq<char>>) {
    (
        c.op@,
        c.path@,
        match c.new_path {
            Some(p) => Some(p@),
            None => None,
        },
        match c.content {
            Some(t) => Some(t@),
            None => None,
        },
    )
}

/// What saving an edit sends: the document's final path, the changeset and
/// its commit message.
pub struct SavePlan {
    pub target_path: String,
    pub changes: Vec<Change>,
    pub message: String,
}

/// Where a saved document lands: a title with a `/` is a full path;
/// otherwise the title replaces the file name in the current directory.
pub open spec fn save_target(path: Seq<char>, title: Seq<char>) -> Seq<char> {
    if char_pos(title, '/', 0) < title.len() {
        title
    } else {
        match rsplit_once_char(path, '/') {
            Some((parent, _)) => parent + "/"@ + title,
            None => title,
        }
    }
}

/// `parent/name`, or `name` for a path without a directory.
fn sibling_path(path: &str, name: &str) -> (r: String)
    ensures
        r@ == match rsplit_once_char(path@, '/') {
            Some((parent, _)) => parent + "/"@ + name@,
            None => name@,
        },
{
    match before_last(path, '/') {
        Some(parent) => {
            let mut r = parent;
            push_str(&mut r, "/");
            push_str(&mut r, name);
            r
        },
        None => to_owned_string(name),
    }
}

/// Why an edit cannot be saved: an empty title (trimmed), else an empty
/// commit message (trimmed).
pub open spec fn save_refusal(title: Seq<char>, message: Seq<char>) -> Option<Seq<char>> {
    if trim(title).len() == 0 {
        Some("文档路径不能为空"@)
    } else if trim(message).len() == 0 {
        Some("需要提交消息"@)
    } else {
        None
    }
}

/// What saving the edit of `path` sends: the document lands at
/// [`save_target`] of the trimmed title; a new path first moves the
/// document, then the content is written at the final path; the message is
/// sent trimmed.
pub open spec fn planned_save(
    path: Seq<char>,
    title: Seq<char>,
    message: Seq<char>,
    content: Seq<char>,
    plan: SavePlan,
) -> bool {
    let target = save_target(path, trim(title));
    let update = ("update"@, target, None::<Seq<char>>, Some(content));
    &&& plan.target_path@ == target
    &&& plan.message@ == trim(message)
    &&& plan.changes@.map_values(|c: Change| change_view(c)) == if target != path {
        seq![("move"@, path, Some(target), None::<Seq<char>>), update]
    } else {
        seq![update]
    }
}

/// Plans the save of an edit (see [`save_refusal`] and [`planned_save`]).
pub fn plan_save(path: &str, title: &str, message: &str, content: String) -> (r: Result<
    SavePlan,
    String,
>)
    ensures
        match r {
            Ok(plan) => save_refusal(title@, message@) is None && planned_save(
                path@,
                title@,
                message@,
                content@,
                plan,
            ),
            Err(e) => save_refusal(title@, message@) == Some(e@),
        },
{
    let t = trimmed(title);
    if t.as_str().is_empty() {
        return Err(to_owned_string("文档路径不能为空"));
    }
    let m = trimmed(message);
    if m.as_str().is_empty() {
        return Err(to_owned_string("需要提交消息"));
    }
    let target = if str_has_char(t.as_str(), '/') {
        t.clone()
    } else {
        sibling_path(path, t.as_str())
    };
    let mut changes: Vec<Change> = Vec::new();
    if !str_eq(target.as_str(), path) {
        changes.push(
            Change {
                op: to_owned_string("move"),
                path: to_owned_string(path),
                new_path: Some(target.clone()),
                content: None,
            },
        );
    }
    changes.push(
        Change {
            op: to_owned_string("update"),
            path: target.clone(),
            new_path: None,
            content: Some(content),
        },
    );
    proof {
        let cv = changes@.map_values(|c: Change| change_view(c));
        if target@ != path@ {
            assert(cv =~= seq![
                ("move"@, path@, Some(target@), None::<Seq<char>>),
                ("update"@, target@, None::<Seq<char>>, Some(content@)),
            ]);
        } else {
            assert(cv =~= seq![("update"@, target@, None::<Seq<char>>, Some(content@))]);
        }
    }
    Ok(SavePlan { target_path: target, changes, message: m })
}

/// An edit has unsaved changes when editing and the editor text differs from
/// the loaded document, a commit message was typed, or the title (trimmed)
/// is not the document's file name.
pub open spec fn unsaved(
    editing: bool,
    editor_text: Seq<char>,
    doc_content: Seq<char>,
    commit_message: Seq<char>,
    edit_path: Option<Seq<char>>,
    title: Seq<char>,
) -> bool {
    editing && (editor_text != doc_content || trim(commit_message).len() > 0 || match edit_path {
        Some(p) => trim(title) != last_segment(p, '/'),
        None => false,
    })
}

pub fn has_unsaved_edits(
    editing: bool,
    editor_text: &str,
    doc_content: &str,
    commit_message: &str,
    edit_path: Option<&str>,
    title: &str,
) -> (b: bool)
    ensures
        b == unsaved(
            editing,
            editor_text@,
            doc_content@,
            commit_message@,
            match edit_path {
                Some(p) => Some(p@),
                None => None,
            },
            title@,
        ),
{
    if !editing {
        return false;
    }
    let content_changed = !str_eq(editor_text, doc_content);
    let message_changed = !is_blank(commit_message);
    let title_changed = match edit_path {
        Some(p) => {
            let name = last_segment_of(p, '/');
            let t = trimmed(title);
            !str_eq(t.as_str(), name.as_str())
        },
        None => false,
    };
    content_changed || message_changed || title_changed
}

/// Where renaming a tree entry to `new_name` (trimmed) moves it; refused
/// when the name is empty or holds a `/`.
pub fn rename_target(path: &str, new_name: &str) -> (r: Result<String, String>)
    ensures
        match r {
            Ok(to) => trim(new_name@).len() > 0 && char_pos(trim(new_name@), '/', 0) == trim(
                new_name@,
            ).len() && to@ == match rsplit_once_char(path@, '/') {
                Some((parent, _)) => parent + "/"@ + trim(new_name@),
                None => trim(new_name@),
            },
            Err(e) => (trim(new_name@).len() == 0 || char_pos(trim(new_name@), '/', 0) < trim(
                new_name@,
            ).len()) && e@ == "名称不能为空且不能包含斜杠"@,
        },
{
    let name = trimmed(new_name);
    if name.as_str().is_empty() || str_has_char(name.as_str(), '/') {
        return Err(to_owned_string("名称不能为空且不能包含斜杠"));
    }
    proof {
        lemma_char_pos_bounds(name@, '/', 0);
    }
    Ok(sibling_path(path, name.as_str()))
}

/// The path a draft is saved under: the typed title (trimmed), or the
/// original path when no title was typed.
pub fn draft_target(title: &str, path: &str) -> (r: String)
    ensures
        r@ == (if trim(title@).len() == 0 {
            path@
        } else {
            trim(title@)
        }),
{
    let t = trimmed(title);
    if t.as_str().is_empty() {
        to_owned_string(path)
    } else {
        t
    }
}

/// A save refused because the document changed on the server.
pub fn is_revision_conflict(error: &ApiError) -> (b: bool)
    ensures
        b == (error.code@ == "revision_conflict"@),
{
    str_eq(error.code.as_str(), "revision_conflict")
}

/// The full address of a share link: absolute URLs as given, server paths
/// after the server address (without its trailing slashes).
pub fn share_url(server: &str, url: &str) -> (r: String)
    ensures
        r@ == (if starts_with(url@, "http://"@) || starts_with(url@, "https://"@) {
            url@
        } else {
            trim_end_char(server@, '/') + url@
        }),
{
    if str_starts_with(url, "http://") || str_starts_with(url, "https://") {
        to_owned_string(url)
    } else {
        let mut r = crate::api::base_url(server);
        push_str(&mut r, url);
        r
    }
}

/// The first seven characters of a commit id.
pub fn short_sha(sha: &str) -> (r: String)
    ensures
        r@ == (if sha@.len() <= 7 {
            sha@
        } else {
            sha@.take(7)
        }),
{
    take_chars(sha, 7)
}

/// Where an export is written: the typed destination (already trimmed by
/// the form), or `project.zip` / `project.bundle` by format.
pub fn export_path(format: &str, destination: &str) -> (r: String)
    ensures
        r@ == (if trim(destination@).len() == 0 {
            if format@ == "zip"@ {
                "project.zip"@
            } else {
                "project.bundle"@
            }
        } else {
            destination@
        }),
{
    if is_blank(destination) {
        if str_eq(format, "zip") {
            to_owned_string("project.zip")
        } else {
            to_owned_string("project.bundle")
        }
    } else {
        to_owned_string(destination)
    }
}

/// Where a downloaded attachment is written: the typed destination
/// (already trimmed), or the attachment's file name.
pub fn download_destination(destination: &str, path: &str) -> (r: String)
    ensures
        r@ == (if destination@.len() == 0 {
            last_segment(path@, '/')
        } else {
            destination@
        }),
{
    if destination.is_empty() {
        last_segment_of(path, '/')
    } else {
        to_owned_string(destination)
    }
}

/// The repository path of an uploaded attachment.
pub fn attachment_path(filename: &str) -> (r: String)
    ensures
        r@ == "attachments/"@ + filename@,
{
    let mut r = to_owned_string("attachments/");
    push_str(&mut r, filename);
    r
}

/// The hard delete of a tree entry is unlocked when the typed text, trimmed,
/// is the confirmation phrase 「确认删除」.
pub fn hard_delete_confirmed(typed: &str) -> (b: bool)
    ensures
        b == (trim(typed@) == delete_phrase()),
{
    delete_confirmation_error(typed).is_none()
}

/// What a tree operation is.
pub enum TreeOp {
    Rename,
    Delete,
    Purge,
}

/// The commit message of a tree operation on a document or directory.
pub fn tree_op_message(op: TreeOp, is_dir: bool) -> (r: String)
    ensures
        r@ == (match op {
            TreeOp::Rename => "重命名"@,
            TreeOp::Delete => "删除"@,
            TreeOp::Purge => "彻底删除"@,
        }) + (if is_dir {
            "目录"@
        } else {
            "文档"@
        }),
{
    let mut r = match op {
        TreeOp::Rename => to_owned_string("重命名"),
        TreeOp::Delete => to_owned_string("删除"),
        TreeOp::Purge => to_owned_string("彻底删除"),
    };
    if is_dir {
        push_str(&mut r, "目录");
    } else {
        push_str(&mut r, "文档");
    }
    r
}

/// The character of a six-bit value in the standard base64 alphabet
/// (`A`–`Z`, `a`–`z`, `0`–`9`, `+`, `/`).
pub open spec fn base64_digit(v: int) -> char {
    if v < 26 {
        (65 + v) as char
    } else if v < 52 {
        (97 + v - 26) as char
    } else if v < 62 {
        (48 + v - 52) as char
    } else if v == 62 {
        '+'
    } else {
        '/'
    }
}

/// Standard padded base64: every three bytes become four characters of
/// six bits each; a last group of two or one bytes is padded with one or
/// two `=`.
pub open spec fn base64_standard(bytes: Seq<u8>) -> Seq<char>
    decreases bytes.len(),
{
    if bytes.len() == 0 {
        seq![]
    } else if bytes.len() == 1 {
        let b0 = bytes[0] as int;
        seq![base64_digit(b0 / 4), base64_digit((b0 % 4) * 16), '=', '=']
    } else if bytes.len() == 2 {
        let (b0, b1) = (bytes[0] as int, bytes[1] as int);
        seq![
            base64_digit(b0 / 4),
            base64_digit((b0 % 4) * 16 + b1 / 16),
            base64_digit((b1 % 16) * 4),
            '=',
        ]
    } else {
        let (b0, b1, b2) = (bytes[0] as int, bytes[1] as int, bytes[2] as int);
        seq![
            base64_digit(b0 / 4),
            base64_digit((b0 % 4) * 16 + b1 / 16),
            base64_digit((b1 % 16) * 4 + b2 / 64),
            base64_digit(b2 % 64),
        ] + base64_standard(bytes.skip(3))
    }
}

/// `base64::engine::general_purpose::STANDARD.encode` (standard alphabet,
/// `PAD` config): the bytes in standard padded base64.
#[verifier::external_body]
fn base64_encode(bytes: &[u8]) -> (r: String)
    ensures
        r@ == base64_standard(bytes@),
{
    base64::Engine::encode(&base64::engine::general_purpose::STANDARD, bytes)
}

/// The change that stores an uploaded attachment: created at its path,
/// its content given as base64 text.
pub struct EncodedChange {
    pub op: String,
    pub path: String,
    pub content: String,
    pub encoding: String,
}

pub fn encoded_create(path: String, encoded: String) -> (c: EncodedChange)
    ensures
        c.op@ == "create"@,
        c.path@ == path@,
        c.content@ == encoded@,
        c.encoding@ == "base64"@,
{
    EncodedChange {
        op: to_owned_string("create"),
        path,
        content: encoded,
        encoding: to_owned_string("base64"),
    }
}

/// The upload of a local file as an attachment: stored under
/// `attachments/<file name>`, its bytes as base64.
pub fn attachment_upload(filename: &str, content: &[u8]) -> (c: EncodedChange)
    ensures
        c.op@ == "create"@,
        c.path@ == "attachments/"@ + filename@,
        c.content@ == base64_standard(content@),
        c.encoding@ == "base64"@,
{
    let encoded = base64_encode(content);
    encoded_create(attachment_path(filename), encoded)
}

/// The warning before deleting a document or directory, by its file name.
pub fn delete_entry_prompt(path: &str, is_dir: bool) -> (r: String)
    ensures
        r@ == (if is_dir {
            "目录「"@
        } else {
            "文档「"@
        }) + last_segment(path@, '/') + (if is_dir {
            "」及其全部内容将被删除。\n保留历史：可恢复；彻底删除：重写 Git 历史，不可恢复。"@
        } else {
            "」将被删除。\n保留历史：可恢复；彻底删除：重写 Git 历史，不可恢复。"@
        }),
{
    let name = last_segment_of(path, '/');
    let mut r = if is_dir {
        to_owned_string("目录「")
    } else {
        to_owned_string("文档「")
    };
    push_str(&mut r, name.as_str());
    if is_dir {
        push_str(&mut r, "」及其全部内容将被删除。\n保留历史：可恢复；彻底删除：重写 Git 历史，不可恢复。");
    } else {
        push_str(&mut r, "」将被删除。\n保留历史：可恢复；彻底删除：重写 Git 历史，不可恢复。");
    }
    r
}

} // verus!
