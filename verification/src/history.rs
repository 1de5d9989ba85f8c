//! The history view's decisions: which commit a file history opens on, how
//! the failures of a commit's detail are reported, and how a historical
//! version is restored.
use vstd::prelude::*;

use crate::api::dto::{Change, Commit};
use crate::api::{api_error_text, ApiError};
use crate::editing::change_view;
use crate::text::{push_str, take_chars, to_owned_string};

verus! {

/// A file history opens on its newest commit: the first listed, focused
/// at row 0; nothing when the file has no history.
pub fn history_start(commits: &[Commit]) -> (r: (Option<usize>, Option<String>))
    ensures
        commits@.len() == 0 ==> r.0 is None && r.1 is None,
        commits@.len() > 0 ==> r.0 == Some(0usize) && (r.1 matches Some(s) && s@ == commits@[0].sha@),
{
    if commits.len() == 0 {
        (None, None)
    } else {
        (Some(0), Some(to_owned_string(commits[0].sha.as_str())))
    }
}

/// The error line of a commit's detail: each failed part as
/// `版本详情: <error>`, `差异统计: <error>` or `Diff: <error>`, in that
/// order, joined by `；`; none when every part loaded.
pub open spec fn detail_problem(
    detail: Option<ApiError>,
    stats: Option<ApiError>,
    patch: Option<ApiError>,
) -> Option<Seq<char>> {
    let parts = (match detail {
        Some(e) => seq!["版本详情: "@ + api_error_text(e)],
        None => seq![],
    }) + (match stats {
        Some(e) => seq!["差异统计: "@ + api_error_text(e)],
        None => seq![],
    }) + (match patch {
        Some(e) => seq!["Diff: "@ + api_error_text(e)],
        None => seq![],
    });
    if parts.len() == 0 {
        None
    } else {
        Some(crate::text::join_with(parts, "；"@))
    }
}

pub open spec fn opt_error(e: Option<&ApiError>) -> Option<ApiError> {
    match e {
        Some(x) => Some(*x),
        None => None,
    }
}

fn add_part(out: &mut String, any: bool, label: &str, e: &ApiError)
    ensures
        final(out)@ == old(out)@ + (if any {
            "；"@
        } else {
            Seq::<char>::empty()
        }) + label@ + api_error_text(*e),
{
    if any {
        push_str(out, "；");
    }
    push_str(out, label);
    let d = e.display();
    push_str(out, d.as_str());
    proof {
        if !any {
            assert(old(out)@ + Seq::<char>::empty() =~= old(out)@);
        }
    }
}

pub fn detail_error(detail: Option<&ApiError>, stats: Option<&ApiError>, patch: Option<&ApiError>) -> (r:
    Option<String>)
    ensures
        match r {
            Some(m) => detail_problem(opt_error(detail), opt_error(stats), opt_error(patch)) == Some(
                m@,
            ),
            None => detail_problem(opt_error(detail), opt_error(stats), opt_error(patch)) is None,
        },
{
    let ghost p1: Seq<Seq<char>> = match detail {
        Some(e) => seq!["版本详情: "@ + api_error_text(*e)],
        None => seq![],
    };
    let ghost p2: Seq<Seq<char>> = match stats {
        Some(e) => seq!["差异统计: "@ + api_error_text(*e)],
        None => seq![],
    };
    let ghost p3: Seq<Seq<char>> = match patch {
        Some(e) => seq!["Diff: "@ + api_error_text(*e)],
        None => seq![],
    };
    let mut out = String::new();
    let mut any = false;
    proof {
        reveal_strlit("");
    }
    assert(out@ == Seq::<char>::empty());
    if let Some(e) = detail {
        add_part(&mut out, any, "版本详情: ", e);
        any = true;
    }
    assert(any == (p1.len() > 0));
    assert(any ==> out@ == crate::text::join_with(p1, "；"@));
    if let Some(e) = stats {
        let ghost before = out@;
        add_part(&mut out, any, "差异统计: ", e);
        proof {
            if p1.len() > 0 {
                assert((p1 + p2).drop_last() =~= p1);
            } else {
                assert(p1 + p2 =~= p2);
                assert(out@ =~= p2[0]);
            }
        }
        any = true;
    }
    assert(any == ((p1 + p2).len() > 0));
    assert(any ==> out@ == crate::text::join_with(p1 + p2, "；"@));
    if let Some(e) = patch {
        add_part(&mut out, any, "Diff: ", e);
        proof {
            if (p1 + p2).len() > 0 {
                assert((p1 + p2 + p3).drop_last() =~= p1 + p2);
            } else {
                assert(p1 + p2 + p3 =~= p3);
                assert(out@ =~= p3[0]);
            }
        }
        any = true;
    } else {
        assert(p1 + p2 + p3 =~= p1 + p2);
    }
    if any {
        Some(out)
    } else {
        None
    }
}

/// How the selected historical version is restored: inside a file's
/// history, its content at that commit is written back over the file (at
/// the known revision, or at the project revision read first); otherwise
/// the commit is reverted on the server.
#[derive(Clone, Debug)]
pub enum RestorePlan {
    ReadRevisionFirst { path: String, sha: String },
    RestoreFile { path: String, sha: String, base: String },
    RevertCommit { sha: String },
}

pub fn restore_plan(file_path: Option<&str>, sha: &str, base_revision: Option<&str>) -> (r: RestorePlan)
    ensures
        match file_path {
            None => r matches RestorePlan::RevertCommit { sha: s } && s@ == sha@,
            Some(p) => match base_revision {
                Some(b) => r matches RestorePlan::RestoreFile { path, sha: s, base } && path@ == p@
                    && s@ == sha@ && base@ == b@,
                None => r matches RestorePlan::ReadRevisionFirst { path, sha: s } && path@ == p@
                    && s@ == sha@,
            },
        },
{
    match file_path {
        None => RestorePlan::RevertCommit { sha: to_owned_string(sha) },
        Some(p) => match base_revision {
            Some(b) => RestorePlan::RestoreFile {
                path: to_owned_string(p),
                sha: to_owned_string(sha),
                base: to_owned_string(b),
            },
            None => RestorePlan::ReadRevisionFirst {
                path: to_owned_string(p),
                sha: to_owned_string(sha),
            },
        },
    }
}

/// The commit message of a restore.
pub open spec fn restore_message() -> Seq<char> {
    "恢复历史版本"@
}

/// The change that writes a historical version back over a file.
pub fn restore_change(path: &str, content: String) -> (c: Change)
    ensures
        change_view(c) == ("update"@, path@, None::<Seq<char>>, Some(content@)),
{
    Change {
        op: to_owned_string("update"),
        path: to_owned_string(path),
        new_path: None,
        content: Some(content),
    }
}

/// The notice after a restore: `已恢复提交 <short sha> · <message>`.
pub fn restore_notice(sha: &str, message: &str) -> (r: String)
    ensures
        r@ == "已恢复提交 "@ + (if sha@.len() <= 7 {
            sha@
        } else {
            sha@.take(7)
        }) + " · "@ + message@,
{
    let mut r = to_owned_string("已恢复提交 ");
    let short = take_chars(sha, 7);
    push_str(&mut r, short.as_str());
    push_str(&mut r, " · ");
    push_str(&mut r, message);
    r
}

/// The question asked before restoring the commit `sha`.
pub fn restore_prompt(sha: &str) -> (r: String)
    ensures
        r@ == "将以 "@ + (if sha@.len() <= 7 {
            sha@
        } else {
            sha@.take(7)
        }) + " 创建一个新的恢复提交，当前文档内容不会被静默覆盖。"@,
{
    let mut r = to_owned_string("将以 ");
    let short = take_chars(sha, 7);
    push_str(&mut r, short.as_str());
    push_str(&mut r, " 创建一个新的恢复提交，当前文档内容不会被静默覆盖。");
    r
}

/// The commit shown after restoring a file: the server's commit id, the
/// restore message, the signed-in user as author, and the given time.
pub fn restored_commit(commit: &str, username: &str, date: String) -> (c: Commit)
    ensures
        c.sha@ == commit@,
        c.message@ == restore_message(),
        c.author@ == username@,
        c.date@ == date@,
{
    Commit {
        sha: to_owned_string(commit),
        message: to_owned_string("恢复历史版本"),
        author: to_owned_string(username),
        date,
    }
}

} // verus!
