//! The workspace's decisions around what the server sent: project rows, the
//! window title, the audit page and its paging.
use vstd::prelude::*;

use crate::api::dto::{AuditEntry, AuditResponse, Project};
use crate::api::{api_error_text, ApiError};
use crate::messages::{truncate, truncated};
use crate::text::{before_char, before_first, push_str, str_eq, to_owned_string, trim, trimmed};

verus! {

/// A project as the project list shows it: `updated` is the date part of
/// the server's `updated_at` (what comes before its `T`).
#[derive(Clone, Debug)]
pub struct ProjectRow {
    pub id: String,
    pub name: String,
    pub description: String,
    pub updated: String,
    pub archived: bool,
}

impl ProjectRow {
    pub fn from_dto(p: &Project) -> (r: ProjectRow)
        ensures
            r.id@ == p.id@,
            r.name@ == p.name@,
            r.description@ == p.description@,
            r.updated@ == before_char(p.updated_at@, 'T'),
            r.archived == p.archived,
    {
        ProjectRow {
            id: to_owned_string(p.id.as_str()),
            name: to_owned_string(p.name.as_str()),
            description: to_owned_string(p.description.as_str()),
            updated: before_first(p.updated_at.as_str(), 'T'),
            archived: p.archived,
        }
    }
}

/// The screens of the application.
#[derive(Clone, Copy, Debug, PartialEq, Eq)]
pub enum Screen {
    Login,
    Workspace,
    Settings,
    ApiReference,
    Audit,
}

/// The name shown for the project `id`: that of the first row with that id,
/// or the id itself when no row has it.
pub open spec fn project_display_name(rows: Seq<ProjectRow>, id: Seq<char>) -> Seq<char>
    decreases rows.len(),
{
    if rows.len() == 0 {
        id
    } else if rows[0].id@ == id {
        rows[0].name@
    } else {
        project_display_name(rows.drop_first(), id)
    }
}

fn display_name(rows: &[ProjectRow], id: &str) -> (r: String)
    ensures
        r@ == project_display_name(rows@, id@),
{
    let mut i: usize = 0;
    assert(rows@.skip(0) =~= rows@);
    while i < rows.len()
        invariant
            i <= rows@.len(),
            project_display_name(rows@, id@) == project_display_name(rows@.skip(i as int), id@),
        decreases rows@.len() - i,
    {
        assert(rows@.skip(i as int).drop_first() =~= rows@.skip(i + 1));
        if str_eq(rows[i].id.as_str(), id) {
            return to_owned_string(rows[i].name.as_str());
        }
        i = i + 1;
    }
    to_owned_string(id)
}

/// The window title: `XWiki — <project> / <document>` in the workspace
/// (each part only as far as it is open), `XWiki — 设置` in the settings,
/// `XWiki` elsewhere.
pub open spec fn title_text(
    screen: Screen,
    rows: Seq<ProjectRow>,
    project: Option<Seq<char>>,
    doc: Option<Seq<char>>,
) -> Seq<char> {
    match screen {
        Screen::Workspace => match project {
            Some(id) => {
                let name = project_display_name(rows, id);
                match doc {
                    Some(path) => "XWiki — "@ + name + " / "@ + path,
                    None => "XWiki — "@ + name,
                }
            },
            None => "XWiki"@,
        },
        Screen::Settings => "XWiki — 设置"@,
        _ => "XWiki"@,
    }
}

pub open spec fn opt_view(o: Option<&str>) -> Option<Seq<char>> {
    match o {
        Some(s) => Some(s@),
        None => None,
    }
}

pub fn window_title(
    screen: Screen,
    rows: &[ProjectRow],
    selected_project: Option<&str>,
    doc_path: Option<&str>,
) -> (r: String)
    ensures
        r@ == title_text(screen, rows@, opt_view(selected_project), opt_view(doc_path)),
{
    match screen {
        Screen::Workspace => match selected_project {
            Some(id) => {
                let name = display_name(rows, id);
                let mut r = to_owned_string("XWiki — ");
                push_str(&mut r, name.as_str());
                if let Some(path) = doc_path {
                    push_str(&mut r, " / ");
                    push_str(&mut r, path);
                }
                r
            },
            None => to_owned_string("XWiki"),
        },
        Screen::Settings => to_owned_string("XWiki — 设置"),
        _ => to_owned_string("XWiki"),
    }
}

/// Where the next audit page starts: at the top after a reset, after the
/// rows already loaded otherwise.
pub fn audit_page_offset(reset: bool, loaded: usize) -> (r: usize)
    ensures
        r == (if reset {
            0
        } else {
            loaded
        }),
{
    if reset {
        0
    } else {
        loaded
    }
}

/// Takes in one audit page: a reset replaces the loaded rows, otherwise the
/// page's rows follow them; returns whether another page follows.
pub fn merge_audit_page(entries: &mut Vec<AuditEntry>, page: AuditResponse, reset: bool) -> (has_more: bool)
    ensures
        final(entries)@ == (if reset {
            page.entries@
        } else {
            old(entries)@ + page.entries@
        }),
        has_more == page.has_more,
{
    let AuditResponse { entries: mut rows, has_more } = page;
    if reset {
        *entries = rows;
    } else {
        entries.append(&mut rows);
    }
    has_more
}

/// An audit row with the given id, by user `u1` in project `p1`, of a
/// change, with every other field empty.
pub fn audit_entry(id: &str) -> (e: AuditEntry)
    ensures
        e.id@ == id@,
        e.actor_type@ == "user"@,
        e.actor_id@ == "u1"@,
        e.project_id@ == "p1"@,
        e.action@ == "change"@,
        e.path@.len() == 0,
        e.detail@.len() == 0,
        e.request_id@.len() == 0,
        e.created_at@.len() == 0,
{
    AuditEntry {
        id: to_owned_string(id),
        actor_type: to_owned_string("user"),
        actor_id: to_owned_string("u1"),
        project_id: to_owned_string("p1"),
        action: to_owned_string("change"),
        path: String::new(),
        detail: String::new(),
        request_id: String::new(),
        created_at: String::new(),
    }
}

pub open spec fn has_project(projects: Seq<Project>, id: Seq<char>) -> bool {
    exists|i: int| 0 <= i < projects.len() && #[trigger] projects[i].id@ == id
}

/// The project the audit page shows: the one already picked while the
/// server still lists it; else the open project when listed; else the first
/// listed one; none when the server lists none.
pub open spec fn audit_project_choice(
    picked: Option<Seq<char>>,
    open: Option<Seq<char>>,
    projects: Seq<Project>,
) -> Option<Seq<char>> {
    if picked is Some && has_project(projects, picked->0) {
        picked
    } else if open is Some && has_project(projects, open->0) {
        open
    } else if projects.len() > 0 {
        Some(projects[0].id@)
    } else {
        None
    }
}

fn lists_project(projects: &[Project], id: &str) -> (b: bool)
    ensures
        b == has_project(projects@, id@),
{
    let mut i: usize = 0;
    while i < projects.len()
        invariant
            i <= projects@.len(),
            forall|j: int| 0 <= j < i ==> #[trigger] projects@[j].id@ != id@,
        decreases projects@.len() - i,
    {
        if str_eq(projects[i].id.as_str(), id) {
            return true;
        }
        i = i + 1;
    }
    false
}

pub fn choose_audit_project(picked: Option<&str>, open: Option<&str>, projects: &[Project]) -> (r:
    Option<String>)
    ensures
        opt_string_view(r) == audit_project_choice(opt_view(picked), opt_view(open), projects@),
{
    if let Some(p) = picked {
        if lists_project(projects, p) {
            return Some(to_owned_string(p));
        }
    }
    if let Some(o) = open {
        if lists_project(projects, o) {
            return Some(to_owned_string(o));
        }
    }
    if projects.len() > 0 {
        Some(to_owned_string(projects[0].id.as_str()))
    } else {
        None
    }
}

pub open spec fn opt_string_view(o: Option<String>) -> Option<Seq<char>> {
    match o {
        Some(s) => Some(s@),
        None => None,
    }
}

/// The position of the first row of project `id`, or the number of rows.
pub open spec fn row_index(rows: Seq<ProjectRow>, id: Seq<char>) -> int
    decreases rows.len(),
{
    if rows.len() == 0 {
        0
    } else if rows[0].id@ == id {
        0
    } else {
        1 + row_index(rows.drop_first(), id)
    }
}

proof fn lemma_row_index(rows: Seq<ProjectRow>, id: Seq<char>)
    ensures
        0 <= row_index(rows, id) <= rows.len(),
        row_index(rows, id) < rows.len() ==> rows[row_index(rows, id)].id@ == id,
        forall|j: int| 0 <= j < row_index(rows, id) ==> (#[trigger] rows[j]).id@ != id,
    decreases rows.len(),
{
    if rows.len() > 0 && rows[0].id@ != id {
        lemma_row_index(rows.drop_first(), id);
        assert forall|j: int| 0 <= j < row_index(rows, id) implies (#[trigger] rows[j]).id@ != id by {
            if j > 0 {
                assert(rows[j] == rows.drop_first()[j - 1]);
            }
        }
    }
}

fn find_row(rows: &Vec<ProjectRow>, id: &str) -> (i: usize)
    ensures
        i == row_index(rows@, id@),
{
    proof {
        lemma_row_index(rows@, id@);
    }
    let mut i: usize = 0;
    while i < rows.len()
        invariant
            i <= rows@.len(),
            forall|j: int| 0 <= j < i ==> (#[trigger] rows@[j]).id@ != id@,
            0 <= row_index(rows@, id@) <= rows@.len(),
            row_index(rows@, id@) < rows@.len() ==> rows@[row_index(rows@, id@)].id@ == id@,
            forall|j: int| 0 <= j < row_index(rows@, id@) ==> (#[trigger] rows@[j]).id@ != id@,
        decreases rows@.len() - i,
    {
        if str_eq(rows[i].id.as_str(), id) {
            return i;
        }
        i = i + 1;
    }
    i
}

/// The project list and the one project operation that may be under way.
pub struct ProjectList {
    pub rows: Vec<ProjectRow>,
    pub action: Option<String>,
}

/// `rows` with the first row of project `id` changed by `f`.
pub open spec fn update_row(rows: Seq<ProjectRow>, id: Seq<char>, f: spec_fn(ProjectRow) -> ProjectRow) -> Seq<ProjectRow> {
    let i = row_index(rows, id);
    if i < rows.len() {
        rows.update(i, f(rows[i]))
    } else {
        rows
    }
}

impl ProjectList {
    /// Starts an operation on project `id`; refused while another one is
    /// under way.
    pub fn begin_action(&mut self, id: &str) -> (started: bool)
        ensures
            started == old(self).action is None,
            final(self).rows@ == old(self).rows@,
            started ==> opt_string_view(final(self).action) == Some(id@),
            !started ==> final(self).action == old(self).action,
    {
        if self.action.is_some() {
            return false;
        }
        self.action = Some(to_owned_string(id));
        true
    }

    fn replace_row(&mut self, i: usize, name: Option<String>, archived: Option<bool>)
        requires
            i < old(self).rows@.len(),
        ensures
            final(self).rows@ == old(self).rows@.update(
                i as int,
                ProjectRow {
                    name: match name {
                        Some(n) => n,
                        None => old(self).rows@[i as int].name,
                    },
                    archived: match archived {
                        Some(a) => a,
                        None => old(self).rows@[i as int].archived,
                    },
                    ..old(self).rows@[i as int]
                },
            ),
            final(self).action == old(self).action,
    {
        let mut row = ProjectRow {
            id: String::new(),
            name: String::new(),
            description: String::new(),
            updated: String::new(),
            archived: false,
        };
        self.rows.set_and_swap(i, &mut row);
        if let Some(n) = name {
            row.name = n;
        }
        if let Some(a) = archived {
            row.archived = a;
        }
        self.rows.set(i, row);
    }

    /// The server archived or restored project `p`: its row follows, the
    /// operation ends; returns the notice.
    pub fn archive_done(&mut self, p: &Project) -> (notice: String)
        ensures
            final(self).rows@ == update_row(
                old(self).rows@,
                p.id@,
                |r: ProjectRow| ProjectRow { archived: p.archived, ..r },
            ),
            final(self).action is None,
            notice@ == if p.archived {
                "项目已归档"@
            } else {
                "项目已恢复"@
            },
    {
        let i = find_row(&self.rows, p.id.as_str());
        proof {
            lemma_row_index(self.rows@, p.id@);
        }
        if i < self.rows.len() {
            self.replace_row(i, None, Some(p.archived));
        }
        self.action = None;
        if p.archived {
            to_owned_string("项目已归档")
        } else {
            to_owned_string("项目已恢复")
        }
    }

    /// The server renamed project `p`: its row takes the new name, the
    /// operation ends; returns the notice `已重命名为 <name>`.
    pub fn rename_done(&mut self, p: &Project) -> (notice: String)
        ensures
            final(self).rows@.len() == old(self).rows@.len(),
            forall|j: int| 0 <= j < old(self).rows@.len() && j != row_index(old(self).rows@, p.id@)
                ==> #[trigger] final(self).rows@[j] == old(self).rows@[j],
            row_index(old(self).rows@, p.id@) < old(self).rows@.len() ==> {
                let i = row_index(old(self).rows@, p.id@);
                &&& final(self).rows@[i].name@ == p.name@
                &&& final(self).rows@[i].id == old(self).rows@[i].id
                &&& final(self).rows@[i].description == old(self).rows@[i].description
                &&& final(self).rows@[i].updated == old(self).rows@[i].updated
                &&& final(self).rows@[i].archived == old(self).rows@[i].archived
            },
            final(self).action is None,
            notice@ == "已重命名为 "@ + p.name@,
    {
        let i = find_row(&self.rows, p.id.as_str());
        proof {
            lemma_row_index(self.rows@, p.id@);
        }
        if i < self.rows.len() {
            let name = to_owned_string(p.name.as_str());
            self.replace_row(i, Some(name), None);
        }
        self.action = None;
        let mut m = to_owned_string("已重命名为 ");
        push_str(&mut m, p.name.as_str());
        m
    }

    /// The server deleted project `id`: its rows leave the list, the
    /// operation ends; returns whether the open project was that one (and
    /// must be closed).
    pub fn delete_done(&mut self, id: &str, open_project: Option<&str>) -> (close_open: bool)
        ensures
            final(self).rows@ == old(self).rows@.filter(|r: ProjectRow| r.id@ != id@),
            final(self).action is None,
            close_open == (open_project matches Some(o) && o@ == id@),
    {
        let mut rows: Vec<ProjectRow> = Vec::new();
        std::mem::swap(&mut rows, &mut self.rows);
        let ghost all = rows@;
        let mut kept: Vec<ProjectRow> = Vec::new();
        proof {
            reveal(Seq::filter);
        }
        assert(all.take(0) =~= Seq::<ProjectRow>::empty());
        for r in it: rows
            invariant
                it.seq() == all,
                kept@ == all.take(it.index() as int).filter(|r: ProjectRow| r.id@ != id@),
        {
            let ghost k = it.index();
            assert(all.take(k + 1).drop_last() =~= all.take(k as int));
            assert(all.take(k + 1).last() == r);
            proof {
                reveal(Seq::filter);
            }
            if !str_eq(r.id.as_str(), id) {
                kept.push(r);
            }
        }
        assert(all.take(all.len() as int) =~= all);
        self.rows = kept;
        self.action = None;
        match open_project {
            Some(o) => str_eq(o, id),
            None => false,
        }
    }

    /// The server created project `p`: its row joins the end of the list,
    /// the operation ends; returns the notice.
    pub fn create_done(&mut self, p: &Project) -> (notice: String)
        ensures
            final(self).rows@.len() == old(self).rows@.len() + 1,
            final(self).rows@.drop_last() == old(self).rows@,
            final(self).rows@.last().id@ == p.id@,
            final(self).rows@.last().name@ == p.name@,
            final(self).rows@.last().description@ == p.description@,
            final(self).rows@.last().updated@ == before_char(p.updated_at@, 'T'),
            final(self).rows@.last().archived == p.archived,
            final(self).action is None,
            notice@ == "项目已创建"@,
    {
        let row = ProjectRow::from_dto(p);
        self.rows.push(row);
        assert(self.rows@.drop_last() =~= old(self).rows@);
        self.action = None;
        to_owned_string("项目已创建")
    }

    /// The operation failed: it ends; returns the status line
    /// `<what>失败: <error>`.
    pub fn action_failed(&mut self, what: &str, e: &ApiError) -> (status: String)
        ensures
            final(self).rows@ == old(self).rows@,
            final(self).action is None,
            status@ == what@ + "失败: "@ + api_error_text(*e),
    {
        self.action = None;
        let mut m = to_owned_string(what);
        push_str(&mut m, "失败: ");
        let d = e.display();
        push_str(&mut m, d.as_str());
        m
    }
}

/// A reply about project `project` is shown only while that project is
/// still the open one.
pub fn project_reply_current(open_project: Option<&str>, project: &str) -> (b: bool)
    ensures
        b == (open_project matches Some(o) && o@ == project@),
{
    match open_project {
        Some(o) => str_eq(o, project),
        None => false,
    }
}

/// A directory listing is shown only while its project is open and the
/// listing still shows that directory.
pub fn tree_reply_current(open_project: Option<&str>, project: &str, tree_path: &str, path: &str) -> (b: bool)
    ensures
        b == ((open_project matches Some(o) && o@ == project@) && tree_path@ == path@),
{
    project_reply_current(open_project, project) && str_eq(tree_path, path)
}

/// A document is shown only while its project is open and it is still the
/// open document.
pub fn doc_reply_current(open_project: Option<&str>, project: &str, doc_path: Option<&str>, path: &str) -> (b: bool)
    ensures
        b == ((open_project matches Some(o) && o@ == project@) && (doc_path matches Some(d) && d@
            == path@)),
{
    project_reply_current(open_project, project) && match doc_path {
        Some(d) => str_eq(d, path),
        None => false,
    }
}

/// The new-project form: nothing is sent for a blank name; otherwise the
/// name and description, trimmed.
pub fn new_project_form(name: &str, description: &str) -> (r: Option<(String, String)>)
    ensures
        trim(name@).len() == 0 ==> r is None,
        trim(name@).len() > 0 ==> (r matches Some((n, d)) && n@ == trim(name@) && d@ == trim(
            description@,
        )),
{
    let n = trimmed(name);
    if n.as_str().is_empty() {
        None
    } else {
        Some((n, trimmed(description)))
    }
}

/// The confirmation of archiving (or restoring) a project: its action
/// label and what it explains.
pub fn archive_prompt(archived: bool) -> (r: (&'static str, &'static str))
    ensures
        archived ==> r.0@ == "归档项目"@ && r.1@ == "归档后项目仍保留，但会从活跃项目视图中移除。"@,
        !archived ==> r.0@ == "恢复项目"@ && r.1@ == "恢复后项目会重新出现在活跃项目视图中。"@,
{
    if archived {
        ("归档项目", "归档后项目仍保留，但会从活跃项目视图中移除。")
    } else {
        ("恢复项目", "恢复后项目会重新出现在活跃项目视图中。")
    }
}

/// The warning before deleting a project.
pub fn delete_project_prompt(name: &str) -> (r: String)
    ensures
        r@ == "项目「"@ + name@ + "」及其全部 Git 历史将被彻底删除，无法恢复。"@,
{
    let mut r = to_owned_string("项目「");
    push_str(&mut r, name);
    push_str(&mut r, "」及其全部 Git 历史将被彻底删除，无法恢复。");
    r
}

/// Going back from a document to the file list: refused while editing;
/// the listing is loaded again when it is empty; at the top of the project
/// the project's changes are loaded again; otherwise the listing is shown.
#[derive(Clone, Debug, PartialEq, Eq)]
pub enum BrowserReturn {
    Refused,
    ReloadTree(String),
    ReloadChanges,
    Show,
}

pub fn browser_return(editing: bool, tree_empty: bool, tree_path: &str) -> (r: BrowserReturn)
    ensures
        editing ==> r == BrowserReturn::Refused,
        !editing && tree_empty ==> (r matches BrowserReturn::ReloadTree(p) && p@ == tree_path@),
        !editing && !tree_empty ==> r == if tree_path@.len() == 0 {
            BrowserReturn::ReloadChanges
        } else {
            BrowserReturn::Show
        },
{
    if editing {
        BrowserReturn::Refused
    } else if tree_empty {
        BrowserReturn::ReloadTree(to_owned_string(tree_path))
    } else if tree_path.is_empty() {
        BrowserReturn::ReloadChanges
    } else {
        BrowserReturn::Show
    }
}

/// The texts of the status bar: the connection, the edit's lock (while
/// editing), the revision (at most twelve characters, then `…`) and the
/// server's version, each only when there is something to show.
pub struct StatusTexts {
    pub connection: String,
    pub lock: Option<String>,
    pub revision: Option<String>,
    pub server: Option<String>,
}

pub fn status_texts(connected: bool, editing: bool, lock_held: bool, revision: Option<&str>, server_version: Option<&str>) -> (r: StatusTexts)
    ensures
        r.connection@ == if connected {
            "已连接"@
        } else {
            "未连接"@
        },
        opt_string_view(r.lock) == if !editing {
            None
        } else if lock_held {
            Some("编辑中 · 锁已持有"@)
        } else {
            Some("编辑中 · 锁丢失"@)
        },
        opt_string_view(r.revision) == match revision {
            Some(rev) => Some("revision "@ + truncated(rev@, 12)),
            None => None,
        },
        opt_string_view(r.server) == match server_version {
            Some(v) => Some("server v"@ + v@),
            None => None,
        },
{
    let connection = if connected {
        to_owned_string("已连接")
    } else {
        to_owned_string("未连接")
    };
    let lock = if !editing {
        None
    } else if lock_held {
        Some(to_owned_string("编辑中 · 锁已持有"))
    } else {
        Some(to_owned_string("编辑中 · 锁丢失"))
    };
    let revision = match revision {
        Some(rev) => {
            let mut t = to_owned_string("revision ");
            let cut = truncate(rev, 12);
            push_str(&mut t, cut.as_str());
            Some(t)
        },
        None => None,
    };
    let server = match server_version {
        Some(v) => {
            let mut t = to_owned_string("server v");
            push_str(&mut t, v);
            Some(t)
        },
        None => None,
    };
    StatusTexts { connection, lock, revision, server }
}

} // verus!
