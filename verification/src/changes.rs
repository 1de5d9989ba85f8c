//! The project-changes panel: the list of recent commits, loaded a page at
//! a time, and the one commit whose document changes are unfolded. Each
//! request carries what it was made for, and a reply that no longer fits
//! the panel is dropped.
use vstd::prelude::*;

use crate::api::dto::Commit;
use crate::api::ApiError;
use crate::messages::{friendly_api_error, friendly_error_text};
use crate::project_changes::{document_patch, files_view, parse_document_patch, FilePatch};
use crate::text::{push_str, str_eq, to_owned_string};

verus! {

/// How many commits one page of the project's changes asks for.
pub const CHANGES_PAGE_SIZE: u32 = 20;

/// `x + 1`, wrapping at `u64::MAX`.
pub open spec fn next_generation(x: u64) -> u64 {
    if x == u64::MAX {
        0
    } else {
        (x + 1) as u64
    }
}

fn bump(x: u64) -> (r: u64)
    ensures
        r == next_generation(x),
{
    x.wrapping_add(1)
}

/// The commits list of the panel.
pub struct ChangesPager {
    pub commits: Vec<Commit>,
    pub loading: bool,
    pub has_more: bool,
    pub error: Option<String>,
    pub generation: u64,
}

/// A page request: where it starts, how many it asks for, and the
/// generation of the list it was made for.
#[derive(Clone, Copy, Debug, PartialEq, Eq)]
pub struct PageRequest {
    pub offset: u32,
    pub limit: u32,
    pub generation: u64,
}

/// Whether a reply to `req` still fits the list: same project, nothing
/// loaded since, no reset since.
pub open spec fn page_current(p: ChangesPager, req: PageRequest, same_project: bool) -> bool {
    same_project && p.commits@.len() as u32 == req.offset && p.generation == req.generation
}

impl ChangesPager {
    /// More pages are only announced after some commits were loaded.
    pub open spec fn consistent(&self) -> bool {
        self.has_more ==> self.commits@.len() > 0
    }

    pub fn new() -> (p: ChangesPager)
        ensures
            p.consistent(),
            p.commits@.len() == 0,
            !p.loading,
            !p.has_more,
            p.error is None,
            p.generation == 0,
    {
        ChangesPager {
            commits: Vec::new(),
            loading: false,
            has_more: false,
            error: None,
            generation: 0,
        }
    }

    /// Empties the list and starts a new generation, so that replies to
    /// earlier requests are dropped.
    pub fn reset(&mut self)
        ensures
            old(self).consistent() ==> final(self).consistent(),
            final(self).commits@.len() == 0,
            !final(self).loading,
            !final(self).has_more,
            final(self).error is None,
            final(self).generation == next_generation(old(self).generation),
    {
        self.generation = bump(self.generation);
        self.commits = Vec::new();
        self.loading = false;
        self.error = None;
        self.has_more = false;
    }

    /// Asks for the next page (after a reset when `reset`); nothing while a
    /// page is on its way.
    pub fn begin(&mut self, reset: bool) -> (r: Option<PageRequest>)
        ensures
            old(self).consistent() ==> final(self).consistent(),
            old(self).loading ==> r is None && *final(self) == *old(self),
            !old(self).loading ==> {
                let gen = if reset {
                    next_generation(old(self).generation)
                } else {
                    old(self).generation
                };
                let kept = if reset {
                    Seq::<Commit>::empty()
                } else {
                    old(self).commits@
                };
                &&& r == Some(
                    PageRequest {
                        offset: kept.len() as u32,
                        limit: CHANGES_PAGE_SIZE,
                        generation: gen,
                    },
                )
                &&& final(self).commits@ == kept
                &&& final(self).generation == gen
                &&& final(self).loading
                &&& final(self).error is None
                &&& final(self).has_more == (!reset && old(self).has_more)
            },
    {
        if self.loading {
            return None;
        }
        if reset {
            self.reset();
        }
        let offset = self.commits.len() as u32;
        self.loading = true;
        self.error = None;
        Some(PageRequest { offset, limit: CHANGES_PAGE_SIZE, generation: self.generation })
    }

    /// Takes in the reply to `req`; returns whether it was taken. A full page
    /// means another may follow.
    pub fn finish(&mut self, req: PageRequest, same_project: bool, result: Result<Vec<Commit>, ApiError>) -> (taken: bool)
        ensures
            old(self).consistent() ==> final(self).consistent(),
            taken == page_current(*old(self), req, same_project),
            !taken ==> *final(self) == *old(self),
            taken ==> {
                &&& !final(self).loading
                &&& final(self).generation == old(self).generation
                &&& match result {
                    Ok(page) => {
                        &&& final(self).commits@ == old(self).commits@ + page@
                        &&& final(self).has_more == (page@.len() == CHANGES_PAGE_SIZE)
                        &&& final(self).error == old(self).error
                    },
                    Err(e) => {
                        &&& final(self).commits@ == old(self).commits@
                        &&& final(self).has_more == old(self).has_more
                        &&& final(self).error matches Some(m) && m@ == "加载项目变更失败: "@
                            + friendly_error_text(e)
                    },
                }
            },
    {
        if !same_project || self.commits.len() as u32 != req.offset || self.generation
            != req.generation {
            return false;
        }
        self.loading = false;
        match result {
            Ok(page) => {
                let mut page = page;
                self.has_more = page.len() == 20;
                self.commits.append(&mut page);
            },
            Err(e) => {
                let mut m = to_owned_string("加载项目变更失败: ");
                let f = friendly_api_error(&e);
                push_str(&mut m, f.as_str());
                self.error = Some(m);
            },
        }
        true
    }
}

/// The unfolded commit of the panel and its document changes.
pub struct ChangeDetail {
    pub expanded: Option<String>,
    pub loading: bool,
    pub error: Option<String>,
    pub files: Vec<FilePatch>,
    pub generation: u64,
}

pub open spec fn expanded_is(d: ChangeDetail, sha: Seq<char>) -> bool {
    d.expanded matches Some(s) && s@ == sha
}

/// Whether a patch asked for commit `sha` under `generation` still fits
/// the panel: same project, that commit unfolded, no newer request.
pub open spec fn detail_current(d: ChangeDetail, same_project: bool, sha: Seq<char>, generation: u64) -> bool {
    same_project && expanded_is(d, sha) && d.generation == generation
}

impl ChangeDetail {
    /// Only an unfolded commit is loading, has files or has an error.
    pub open spec fn consistent(&self) -> bool {
        (self.loading || self.files@.len() > 0 || self.error is Some) ==> self.expanded is Some
    }

    pub fn new() -> (d: ChangeDetail)
        ensures
            d.consistent(),
            d.expanded is None,
            !d.loading,
            d.error is None,
            d.files@.len() == 0,
            d.generation == 0,
    {
        ChangeDetail { expanded: None, loading: false, error: None, files: Vec::new(), generation: 0 }
    }

    /// Folds the commit away; replies to earlier requests are dropped.
    pub fn clear(&mut self)
        ensures
            old(self).consistent() ==> final(self).consistent(),
            final(self).expanded is None,
            !final(self).loading,
            final(self).error is None,
            final(self).files@.len() == 0,
            final(self).generation == next_generation(old(self).generation),
    {
        self.generation = bump(self.generation);
        self.expanded = None;
        self.loading = false;
        self.error = None;
        self.files = Vec::new();
    }

    /// Picking a commit: the unfolded one folds away; another one unfolds
    /// and its patch is asked for (the returned generation), when it can be
    /// loaded at all.
    pub fn toggle(&mut self, sha: &str, can_load: bool) -> (r: Option<u64>)
        ensures
            old(self).consistent() ==> final(self).consistent(),
            expanded_is(*old(self), sha@) ==> {
                &&& r is None
                &&& final(self).expanded is None
                &&& !final(self).loading
                &&& final(self).error is None
                &&& final(self).files@.len() == 0
                &&& final(self).generation == next_generation(old(self).generation)
            },
            !expanded_is(*old(self), sha@) && !can_load ==> r is None && *final(self)
                == *old(self),
            !expanded_is(*old(self), sha@) && can_load ==> {
                &&& r == Some(next_generation(old(self).generation))
                &&& final(self).generation == next_generation(old(self).generation)
                &&& expanded_is(*final(self), sha@)
                &&& final(self).loading
                &&& final(self).error is None
                &&& final(self).files@.len() == 0
            },
    {
        let same = match &self.expanded {
            Some(s) => str_eq(s.as_str(), sha),
            None => false,
        };
        if same {
            self.clear();
            return None;
        }
        if !can_load {
            return None;
        }
        self.generation = bump(self.generation);
        self.expanded = Some(to_owned_string(sha));
        self.loading = true;
        self.error = None;
        self.files = Vec::new();
        Some(self.generation)
    }

    /// Takes in the patch asked for commit `sha` under `generation`; returns
    /// whether it was taken.
    pub fn finish(
        &mut self,
        same_project: bool,
        sha: &str,
        generation: u64,
        result: Result<String, ApiError>,
    ) -> (taken: bool)
        requires
            result matches Ok(p) ==> document_patch(p@) is Some,
        ensures
            old(self).consistent() ==> final(self).consistent(),
            taken == detail_current(*old(self), same_project, sha@, generation),
            !taken ==> *final(self) == *old(self),
            taken ==> {
                &&& !final(self).loading
                &&& final(self).expanded == old(self).expanded
                &&& final(self).generation == old(self).generation
                &&& match result {
                    Ok(p) => document_patch(p@) == Some(files_view(final(self).files@))
                        && final(self).error == old(self).error,
                    Err(e) => final(self).files@ == old(self).files@ && (final(self).error matches Some(
                        m,
                    ) && m@ == "加载变更详情失败: "@ + friendly_error_text(e)),
                }
            },
    {
        let current = match &self.expanded {
            Some(s) => str_eq(s.as_str(), sha),
            None => false,
        };
        if !same_project || !current || self.generation != generation {
            return false;
        }
        self.loading = false;
        match result {
            Ok(patch) => {
                self.files = parse_document_patch(patch.as_str());
            },
            Err(e) => {
                let mut m = to_owned_string("加载变更详情失败: ");
                let f = friendly_api_error(&e);
                push_str(&mut m, f.as_str());
                self.error = Some(m);
            },
        }
        true
    }
}

/// Each request moves the generation on, so a generation never comes
/// back after one step.
proof fn lemma_next_generation_differs(g: u64)
    ensures
        next_generation(g) != g,
{
}

/// After a reset, a reply to any page asked for before it is dropped.
pub proof fn law_reset_drops_earlier_pages(p: ChangesPager, req: PageRequest, same_project: bool)
    requires
        p.generation == next_generation(req.generation),
    ensures
        !page_current(p, req, same_project),
{
    lemma_next_generation_differs(req.generation);
}

/// Once another commit is picked (or the commit folded away), the patch
/// asked for before is dropped.
pub proof fn law_newer_pick_drops_earlier_patch(d: ChangeDetail, same_project: bool, sha: Seq<char>, generation: u64)
    requires
        d.generation == next_generation(generation),
    ensures
        !detail_current(d, same_project, sha, generation),
{
    lemma_next_generation_differs(generation);
}

} // verus!
