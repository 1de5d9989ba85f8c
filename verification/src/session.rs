//! An editing session: the lock held on a document, the save in flight, a
//! refused save, and the local draft that an edit resumes from.
use vstd::prelude::*;

use crate::api::{api_error_text, ApiError};
use crate::editing::{plan_save, planned_save, save_refusal, SavePlan};
use crate::text::{last_segment, last_segment_of, push_str, str_eq, to_owned_string};
use crate::workspace::opt_string_view;

verus! {

/// An edit kept on this machine between sessions.
#[derive(Clone, Debug)]
pub struct Draft {
    pub server: String,
    pub username: String,
    pub project: String,
    pub original_path: String,
    pub target_path: String,
    pub content: String,
    pub message: String,
    pub base_revision: String,
    pub updated_at: i64,
}

/// Whether a draft belongs to the edit of `path` in `project`, by `username`
/// on `server`.
pub open spec fn draft_for(d: Draft, server: Seq<char>, username: Seq<char>, project: Seq<char>, path: Seq<char>) -> bool {
    d.server@ == server && d.username@ == username && d.project@ == project && d.original_path@
        == path
}

/// The first draft of the edit, if any.
pub fn find_draft(drafts: &[Draft], server: &str, username: &str, project: &str, path: &str) -> (r:
    Option<usize>)
    ensures
        match r {
            Some(i) => i < drafts@.len() && draft_for(drafts@[i as int], server@, username@, project@, path@)
                && drafts@[i as int].original_path@ == path@ && drafts@[i as int].project@ == project@
                && drafts@[i as int].username@ == username@ && drafts@[i as int].server@ == server@
                && forall|j: int| 0 <= j < i ==> !draft_for(#[trigger] drafts@[j], server@, username@, project@, path@),
            None => forall|j: int| 0 <= j < drafts@.len() ==> !draft_for(#[trigger] drafts@[j], server@, username@, project@, path@),
        },
{
    let mut i: usize = 0;
    while i < drafts.len()
        invariant
            i <= drafts@.len(),
            forall|j: int| 0 <= j < i ==> !draft_for(#[trigger] drafts@[j], server@, username@, project@, path@),
        decreases drafts@.len() - i,
    {
        let d = &drafts[i];
        if str_eq(d.server.as_str(), server) && str_eq(d.username.as_str(), username) && str_eq(
            d.project.as_str(),
            project,
        ) && str_eq(d.original_path.as_str(), path) {
            return Some(i);
        }
        i = i + 1;
    }
    None
}

/// A save the server refused because the document changed meanwhile.
#[derive(Clone, Debug)]
pub struct ConflictInfo {
    pub message: String,
    pub path: String,
}

/// What the editor starts with.
pub struct EditorStart {
    pub content: String,
    pub title: String,
    pub message: String,
    pub restored: bool,
}

/// The editing state of the open document.
pub struct EditSession {
    pub editing: bool,
    pub lock_held: bool,
    pub saving: bool,
    pub save_error: Option<String>,
    pub conflict: Option<ConflictInfo>,
    pub edit_path: Option<String>,
    pub base_revision: Option<String>,
    pub current_revision: Option<String>,
}

pub open spec fn conflict_view(c: Option<ConflictInfo>) -> Option<(Seq<char>, Seq<char>)> {
    match c {
        Some(i) => Some((i.message@, i.path@)),
        None => None,
    }
}

/// The status line once the lock could not be renewed.
pub open spec fn lock_lost_text() -> Seq<char> {
    "锁续租失败，请取消编辑后重新编辑。"@
}

impl EditSession {
    /// The lock is only held, and a save only in flight, during an edit of
    /// a known path.
    pub open spec fn consistent(&self) -> bool {
        &&& self.lock_held ==> self.editing && self.edit_path is Some
        &&& self.saving ==> self.editing && self.edit_path is Some
    }

    pub fn new() -> (s: EditSession)
        ensures
            s.consistent(),
            !s.editing,
            !s.lock_held,
            !s.saving,
            s.save_error is None,
            s.conflict is None,
            s.edit_path is None,
            s.base_revision is None,
            s.current_revision is None,
    {
        EditSession {
            editing: false,
            lock_held: false,
            saving: false,
            save_error: None,
            conflict: None,
            edit_path: None,
            base_revision: None,
            current_revision: None,
        }
    }

    /// The document arrived at `revision`; outside an edit, an edit would
    /// start from it.
    pub fn document_loaded(&mut self, revision: &str)
        ensures
            old(self).consistent() ==> final(self).consistent(),
            opt_string_view(final(self).current_revision) == Some(revision@),
            opt_string_view(final(self).base_revision) == if old(self).editing {
                opt_string_view(old(self).base_revision)
            } else {
                Some(revision@)
            },
            final(self).editing == old(self).editing,
            final(self).lock_held == old(self).lock_held,
            final(self).saving == old(self).saving,
            final(self).save_error == old(self).save_error,
            final(self).conflict == old(self).conflict,
            final(self).edit_path == old(self).edit_path,
    {
        self.current_revision = Some(to_owned_string(revision));
        if !self.editing {
            self.base_revision = Some(to_owned_string(revision));
        }
    }

    /// The lock on `path` was granted: the edit starts from the draft when
    /// one is kept (its content and message; its target path as title when
    /// set; its base revision when set), else from the document with its
    /// file name as title. Without a base revision it is the document's.
    pub fn begin(&mut self, path: &str, doc_content: &str, draft: Option<&Draft>) -> (r: EditorStart)
        ensures
            old(self).consistent() ==> final(self).consistent(),
            final(self).editing,
            final(self).lock_held,
            !final(self).saving,
            final(self).save_error is None,
            final(self).conflict == old(self).conflict,
            opt_string_view(final(self).edit_path) == Some(path@),
            final(self).current_revision == old(self).current_revision,
            ({
                let kept = match draft {
                    Some(d) if d.base_revision@.len() > 0 => Some(d.base_revision@),
                    _ => opt_string_view(old(self).base_revision),
                };
                opt_string_view(final(self).base_revision) == if kept is Some {
                    kept
                } else {
                    opt_string_view(old(self).current_revision)
                }
            }),
            match draft {
                Some(d) => {
                    &&& r.restored
                    &&& r.content@ == d.content@
                    &&& r.message@ == d.message@
                    &&& r.title@ == if d.target_path@.len() > 0 {
                        d.target_path@
                    } else {
                        last_segment(path@, '/')
                    }
                },
                None => {
                    &&& !r.restored
                    &&& r.content@ == doc_content@
                    &&& r.message@.len() == 0
                    &&& r.title@ == last_segment(path@, '/')
                },
            },
    {
        let start = match draft {
            Some(d) => {
                if !d.base_revision.as_str().is_empty() {
                    self.base_revision = Some(to_owned_string(d.base_revision.as_str()));
                }
                EditorStart {
                    content: to_owned_string(d.content.as_str()),
                    title: if d.target_path.as_str().is_empty() {
                        last_segment_of(path, '/')
                    } else {
                        to_owned_string(d.target_path.as_str())
                    },
                    message: to_owned_string(d.message.as_str()),
                    restored: true,
                }
            },
            None => EditorStart {
                content: to_owned_string(doc_content),
                title: last_segment_of(path, '/'),
                message: String::new(),
                restored: false,
            },
        };
        self.edit_path = Some(to_owned_string(path));
        if self.base_revision.is_none() {
            self.base_revision = match &self.current_revision {
                Some(c) => Some(to_owned_string(c.as_str())),
                None => None,
            };
        }
        self.editing = true;
        self.lock_held = true;
        self.saving = false;
        self.save_error = None;
        start
    }

    /// Starts saving the edit: nothing while a save is in flight, without
    /// the lock, or outside an edit; a refused form or a missing base
    /// revision only sets the save error; otherwise the plan and the base
    /// revision to send it against.
    pub fn begin_save(&mut self, title: &str, message: &str, content: String) -> (r: Option<(SavePlan, String)>)
        ensures
            old(self).consistent() ==> final(self).consistent(),
            old(self).saving || !old(self).lock_held || old(self).edit_path is None ==> r is None
                && *final(self) == *old(self),
            !(old(self).saving || !old(self).lock_held || old(self).edit_path is None) ==> {
                let path = opt_string_view(old(self).edit_path)->0;
                &&& final(self).editing == old(self).editing
                &&& final(self).lock_held
                &&& final(self).conflict == old(self).conflict
                &&& final(self).edit_path == old(self).edit_path
                &&& final(self).base_revision == old(self).base_revision
                &&& final(self).current_revision == old(self).current_revision
                &&& match save_refusal(title@, message@) {
                    Some(e) => r is None && !final(self).saving && opt_string_view(
                        final(self).save_error,
                    ) == Some(e),
                    None => match old(self).base_revision {
                        None => r is None && !final(self).saving && opt_string_view(
                            final(self).save_error,
                        ) == Some("文档版本尚未加载，请稍后再试"@),
                        Some(base) => final(self).saving && final(self).save_error is None
                            && (r matches Some((plan, b)) && b@ == base@ && planned_save(
                            path,
                            title@,
                            message@,
                            content@,
                            plan,
                        )),
                    },
                }
            },
    {
        if self.saving || !self.lock_held {
            return None;
        }
        let path = match &self.edit_path {
            Some(p) => to_owned_string(p.as_str()),
            None => return None,
        };
        match plan_save(path.as_str(), title, message, content) {
            Err(e) => {
                self.save_error = Some(e);
                None
            },
            Ok(plan) => match &self.base_revision {
                None => {
                    self.save_error = Some(to_owned_string("文档版本尚未加载，请稍后再试"));
                    None
                },
                Some(base) => {
                    let b = to_owned_string(base.as_str());
                    self.saving = true;
                    self.save_error = None;
                    Some((plan, b))
                },
            },
        }
    }

    /// The reply to the save of `source` to `target`. Accepted, the edit
    /// ends at the new revision and the lock on `target` is to be released
    /// (returned). A revision conflict keeps the edit open and records the
    /// server's message; any other failure is shown as `提交失败: <error>`.
    pub fn finish_save(&mut self, source: &str, target: &str, result: Result<String, ApiError>) -> (release:
        Option<String>)
        ensures
            old(self).consistent() ==> final(self).consistent(),
            !final(self).saving,
            match result {
                Ok(rev) => {
                    &&& release matches Some(p) && p@ == target@
                    &&& !final(self).editing
                    &&& !final(self).lock_held
                    &&& final(self).save_error is None
                    &&& final(self).edit_path is None
                    &&& opt_string_view(final(self).current_revision) == Some(rev@)
                    &&& opt_string_view(final(self).base_revision) == Some(rev@)
                    &&& final(self).conflict == old(self).conflict
                },
                Err(e) => {
                    &&& release is None
                    &&& final(self).editing == old(self).editing
                    &&& final(self).lock_held == old(self).lock_held
                    &&& final(self).edit_path == old(self).edit_path
                    &&& final(self).base_revision == old(self).base_revision
                    &&& final(self).current_revision == old(self).current_revision
                    &&& if e.code@ == "revision_conflict"@ {
                        &&& conflict_view(final(self).conflict) == Some((e.message@, source@))
                        &&& final(self).save_error == old(self).save_error
                    } else {
                        &&& final(self).conflict == old(self).conflict
                        &&& opt_string_view(final(self).save_error) == Some(
                            "提交失败: "@ + api_error_text(e),
                        )
                    }
                },
            },
    {
        self.saving = false;
        match result {
            Ok(rev) => {
                self.current_revision = Some(to_owned_string(rev.as_str()));
                self.base_revision = Some(rev);
                self.save_error = None;
                self.editing = false;
                self.lock_held = false;
                self.edit_path = None;
                Some(to_owned_string(target))
            },
            Err(e) => {
                if str_eq(e.code.as_str(), "revision_conflict") {
                    self.conflict = Some(
                        ConflictInfo {
                            message: to_owned_string(e.message.as_str()),
                            path: to_owned_string(source),
                        },
                    );
                } else {
                    let mut m = to_owned_string("提交失败: ");
                    let d = e.display();
                    push_str(&mut m, d.as_str());
                    self.save_error = Some(m);
                }
                None
            },
        }
    }

    /// The lock could not be renewed: it is no longer held; returns the
    /// status line to show.
    pub fn lock_lost(&mut self) -> (status: String)
        ensures
            old(self).consistent() ==> final(self).consistent(),
            !final(self).lock_held,
            final(self).editing == old(self).editing,
            final(self).saving == old(self).saving,
            final(self).edit_path == old(self).edit_path,
            final(self).save_error == old(self).save_error,
            final(self).conflict == old(self).conflict,
            final(self).base_revision == old(self).base_revision,
            final(self).current_revision == old(self).current_revision,
            status@ == lock_lost_text(),
    {
        self.lock_held = false;
        to_owned_string("锁续租失败，请取消编辑后重新编辑。")
    }

    /// Leaves the edit; returns the path whose lock and draft are to be
    /// released.
    pub fn cancel(&mut self) -> (release: Option<String>)
        ensures
            old(self).consistent() ==> final(self).consistent(),
            opt_string_view(release) == opt_string_view(old(self).edit_path),
            !final(self).editing,
            !final(self).lock_held,
            !final(self).saving,
            final(self).save_error is None,
            final(self).edit_path is None,
            final(self).base_revision is None,
            final(self).conflict == old(self).conflict,
            final(self).current_revision == old(self).current_revision,
    {
        self.editing = false;
        self.base_revision = None;
        self.lock_held = false;
        self.saving = false;
        self.save_error = None;
        let p = match &self.edit_path {
            Some(p) => Some(to_owned_string(p.as_str())),
            None => None,
        };
        self.edit_path = None;
        p
    }

    /// After a conflict, drops the local edit for the server's copy: returns
    /// the document to open again and the path whose lock is to be released.
    pub fn resolve_reload(&mut self) -> (r: (Option<String>, Option<String>))
        ensures
            old(self).consistent() ==> final(self).consistent(),
            opt_string_view(r.0) == match old(self).conflict {
                Some(c) => Some(c.path@),
                None => None,
            },
            opt_string_view(r.1) == opt_string_view(old(self).edit_path),
            final(self).conflict is None,
            !final(self).editing,
            !final(self).lock_held,
            !final(self).saving,
            final(self).save_error is None,
            final(self).edit_path is None,
            final(self).base_revision == old(self).base_revision,
            final(self).current_revision == old(self).current_revision,
    {
        let reopen = match &self.conflict {
            Some(c) => Some(to_owned_string(c.path.as_str())),
            None => None,
        };
        self.conflict = None;
        self.editing = false;
        self.lock_held = false;
        self.saving = false;
        self.save_error = None;
        let release = match &self.edit_path {
            Some(p) => Some(to_owned_string(p.as_str())),
            None => None,
        };
        self.edit_path = None;
        (reopen, release)
    }

    /// After a conflict, keeps the local edit to save it again.
    pub fn resolve_force(&mut self)
        ensures
            old(self).consistent() ==> final(self).consistent(),
            final(self).conflict is None,
            final(self).save_error is None,
            final(self).editing == old(self).editing,
            final(self).lock_held == old(self).lock_held,
            final(self).saving == old(self).saving,
            final(self).edit_path == old(self).edit_path,
            final(self).base_revision == old(self).base_revision,
            final(self).current_revision == old(self).current_revision,
    {
        self.conflict = None;
        self.save_error = None;
    }

    /// After a conflict, gives the edit up (as [`EditSession::cancel`]).
    pub fn resolve_abandon(&mut self) -> (release: Option<String>)
        ensures
            old(self).consistent() ==> final(self).consistent(),
            opt_string_view(release) == opt_string_view(old(self).edit_path),
            final(self).conflict is None,
            !final(self).editing,
            !final(self).lock_held,
            !final(self).saving,
            final(self).save_error is None,
            final(self).edit_path is None,
            final(self).base_revision is None,
            final(self).current_revision == old(self).current_revision,
    {
        self.conflict = None;
        self.cancel()
    }
}


/// Where the lock-renewal loop of an edit stands when it next decides.
#[derive(Clone, Copy, Debug, PartialEq, Eq, Structural)]
pub enum HeartbeatPhase {
    /// The loop has just started, or a renewal went through.
    Idle,
    /// The renewal interval has passed.
    TimerFired,
    /// The renewal request failed.
    RenewFailed,
}

/// What the lock-renewal loop does next.
#[derive(Clone, Copy, Debug, PartialEq, Eq, Structural)]
pub enum HeartbeatAction {
    /// Leave the loop: the edit it renewed for is over.
    Stop,
    /// Wait for the renewal interval.
    Wait,
    /// Renew the lock now.
    Renew,
    /// Give up the lock (see `EditSession::lock_lost`) and leave the loop.
    LockLost,
}

/// One decision of the lock-renewal loop started for heartbeat generation
/// `started`, when the current generation is `current`: a failed renewal
/// loses the lock; otherwise a loop whose generation has moved on stops;
/// otherwise it renews once the interval has passed and waits before that.
pub open spec fn heartbeat_next(started: u64, current: u64, phase: HeartbeatPhase) -> HeartbeatAction {
    if phase == HeartbeatPhase::RenewFailed {
        HeartbeatAction::LockLost
    } else if current != started {
        HeartbeatAction::Stop
    } else if phase == HeartbeatPhase::TimerFired {
        HeartbeatAction::Renew
    } else {
        HeartbeatAction::Wait
    }
}

/// The next step of the lock-renewal loop (see `heartbeat_next`).
pub fn heartbeat_step(started: u64, current: u64, phase: HeartbeatPhase) -> (a: HeartbeatAction)
    ensures
        a == heartbeat_next(started, current, phase),
{
    match phase {
        HeartbeatPhase::RenewFailed => HeartbeatAction::LockLost,
        _ => {
            if current != started {
                HeartbeatAction::Stop
            } else if phase == HeartbeatPhase::TimerFired {
                HeartbeatAction::Renew
            } else {
                HeartbeatAction::Wait
            }
        },
    }
}

/// Once the edit's heartbeat generation has moved on (the edit was left or
/// restarted), the loop started for it never renews the lock or waits again.
pub proof fn law_stale_heartbeat_never_renews(started: u64, current: u64, phase: HeartbeatPhase)
    requires
        current != started,
    ensures
        heartbeat_next(started, current, phase) == HeartbeatAction::Stop
            || heartbeat_next(started, current, phase) == HeartbeatAction::LockLost,
{
}

/// A draft is resumed only into the edit it was made for: the same server,
/// user, project and original path; and a draft made for exactly that edit
/// is always one that can be resumed.
pub proof fn law_draft_belongs_to_its_edit(
    d: Draft,
    server: Seq<char>,
    username: Seq<char>,
    project: Seq<char>,
    path: Seq<char>,
)
    ensures
        draft_for(d, server, username, project, path) ==> d.original_path@ == path && d.project@
            == project && d.username@ == username && d.server@ == server,
        (d.original_path@ == path && d.project@ == project && d.username@ == username && d.server@
            == server) ==> draft_for(d, server, username, project, path),
{
}

/// A draft made for another path of the same project is never resumed into
/// the edit of `path`.
pub proof fn law_other_path_draft_not_resumed(
    d: Draft,
    server: Seq<char>,
    username: Seq<char>,
    project: Seq<char>,
    path: Seq<char>,
)
    requires
        d.original_path@ != path,
    ensures
        !draft_for(d, server, username, project, path),
{
}

} // verus!
