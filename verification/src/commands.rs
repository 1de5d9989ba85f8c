//! The command palette and the quick-open list: which entries they offer in
//! a given state, what picking one does, and how typing narrows the list.
use vstd::prelude::*;

use crate::api::dto::TreeEntry;
use crate::text::{contains, push_str, str_contains, str_eq, to_owned_string, trim, trimmed};
use crate::workspace::{ProjectRow, Screen};

verus! {

/// One entry of the command palette.
#[derive(Clone, Copy, Debug)]
pub struct PaletteCmd {
    pub id: &'static str,
    pub label: &'static str,
    pub hint: &'static str,
}

/// What the palette depends on.
#[derive(Clone, Copy, Debug)]
pub struct PaletteContext {
    pub project_open: bool,
    pub logged_in: bool,
    pub editing: bool,
    pub doc_open: bool,
    pub history_open: bool,
}

pub open spec fn cmd_view(c: PaletteCmd) -> (Seq<char>, Seq<char>, Seq<char>) {
    (c.id@, c.label@, c.hint@)
}

/// The palette's entries, in order: inside a project, going back (unless
/// editing), the file history (for an open document whose history is not
/// shown) and editing it (unless editing); outside one, a new project when
/// logged in; then the theme; then settings and logout when logged in and
/// not editing.
pub open spec fn palette_entries(c: PaletteContext) -> Seq<(Seq<char>, Seq<char>, Seq<char>)> {
    let back = (
        "back"@,
        if c.doc_open {
            "返回文件列表"@
        } else {
            "返回项目列表"@
        },
        "esc"@,
    );
    let head = if c.project_open {
        (if !c.editing {
            seq![back]
        } else {
            seq![]
        }) + (if !c.history_open && c.doc_open {
            seq![("history"@, "查看历史"@, "file"@)]
        } else {
            seq![]
        }) + (if !c.editing && c.doc_open {
            seq![("edit"@, "编辑当前文档"@, "lock + changeset"@)]
        } else {
            seq![]
        })
    } else if c.logged_in {
        seq![("new-project"@, "新建项目"@, "dialog"@)]
    } else {
        seq![]
    };
    let tail = if c.logged_in && !c.editing {
        seq![("settings"@, "设置"@, "server · 连接"@), ("logout"@, "退出登录"@, "session"@)]
    } else {
        seq![]
    };
    head + seq![("theme"@, "切换主题"@, "⌘⇧T"@)] + tail
}

pub fn palette_commands(c: PaletteContext) -> (r: Vec<PaletteCmd>)
    ensures
        r@.map_values(|p: PaletteCmd| cmd_view(p)) == palette_entries(c),
{
    let mut cmds: Vec<PaletteCmd> = Vec::new();
    let ghost mut head: Seq<(Seq<char>, Seq<char>, Seq<char>)> = seq![];
    if c.project_open {
        if !c.editing {
            let cmd = PaletteCmd {
                id: "back",
                label: if c.doc_open {
                    "返回文件列表"
                } else {
                    "返回项目列表"
                },
                hint: "esc",
            };
            cmds.push(cmd);
            proof {
                head = head.push(cmd_view(cmd));
            }
        }
        if !c.history_open && c.doc_open {
            let cmd = PaletteCmd { id: "history", label: "查看历史", hint: "file" };
            cmds.push(cmd);
            proof {
                head = head.push(cmd_view(cmd));
            }
        }
        if !c.editing && c.doc_open {
            let cmd = PaletteCmd { id: "edit", label: "编辑当前文档", hint: "lock + changeset" };
            cmds.push(cmd);
            proof {
                head = head.push(cmd_view(cmd));
            }
        }
    } else if c.logged_in {
        let cmd = PaletteCmd { id: "new-project", label: "新建项目", hint: "dialog" };
        cmds.push(cmd);
        proof {
            head = head.push(cmd_view(cmd));
        }
    }
    assert(cmds@.map_values(|p: PaletteCmd| cmd_view(p)) =~= head);
    let theme = PaletteCmd { id: "theme", label: "切换主题", hint: "⌘⇧T" };
    cmds.push(theme);
    let ghost mut tail: Seq<(Seq<char>, Seq<char>, Seq<char>)> = seq![];
    if c.logged_in && !c.editing {
        let s = PaletteCmd { id: "settings", label: "设置", hint: "server · 连接" };
        let l = PaletteCmd { id: "logout", label: "退出登录", hint: "session" };
        cmds.push(s);
        cmds.push(l);
        proof {
            tail = seq![cmd_view(s), cmd_view(l)];
        }
    }
    assert(cmds@.map_values(|p: PaletteCmd| cmd_view(p)) =~= head + seq![cmd_view(theme)] + tail);
    assert(head + seq![cmd_view(theme)] + tail =~= palette_entries(c));
    cmds
}

/// What picking a palette entry does.
#[derive(Clone, Copy, Debug, PartialEq, Eq)]
pub enum PaletteAction {
    BackToDocumentBrowser,
    BackToProjects,
    OpenFileHistory,
    StartEdit,
    NewProject,
    ToggleTheme,
    OpenSettings,
    Logout,
}

/// The action of the palette entry `id`: going back does nothing while
/// editing, returns to the file list from a document and to the project
/// list otherwise; unknown ids do nothing.
pub open spec fn palette_action(id: Seq<char>, editing: bool, doc_open: bool) -> Option<PaletteAction> {
    if id == "back"@ {
        if editing {
            None
        } else if doc_open {
            Some(PaletteAction::BackToDocumentBrowser)
        } else {
            Some(PaletteAction::BackToProjects)
        }
    } else if id == "history"@ {
        Some(PaletteAction::OpenFileHistory)
    } else if id == "edit"@ {
        Some(PaletteAction::StartEdit)
    } else if id == "new-project"@ {
        Some(PaletteAction::NewProject)
    } else if id == "theme"@ {
        Some(PaletteAction::ToggleTheme)
    } else if id == "settings"@ {
        Some(PaletteAction::OpenSettings)
    } else if id == "logout"@ {
        Some(PaletteAction::Logout)
    } else {
        None
    }
}

pub fn run_command(id: &str, editing: bool, doc_open: bool) -> (r: Option<PaletteAction>)
    ensures
        r == palette_action(id@, editing, doc_open),
{
    if str_eq(id, "back") {
        if editing {
            None
        } else if doc_open {
            Some(PaletteAction::BackToDocumentBrowser)
        } else {
            Some(PaletteAction::BackToProjects)
        }
    } else if str_eq(id, "history") {
        Some(PaletteAction::OpenFileHistory)
    } else if str_eq(id, "edit") {
        Some(PaletteAction::StartEdit)
    } else if str_eq(id, "new-project") {
        Some(PaletteAction::NewProject)
    } else if str_eq(id, "theme") {
        Some(PaletteAction::ToggleTheme)
    } else if str_eq(id, "settings") {
        Some(PaletteAction::OpenSettings)
    } else if str_eq(id, "logout") {
        Some(PaletteAction::Logout)
    } else {
        None
    }
}

/// Where a quick-open entry leads.
#[derive(Clone, Debug, PartialEq, Eq)]
pub enum QuickTarget {
    OpenProject(String),
    OpenDoc(String),
    EnterDir(String),
    BackToDocumentBrowser,
    BackToProjects,
}

/// One entry of the quick-open list.
#[derive(Clone, Debug)]
pub struct QuickItem {
    pub label: String,
    pub hint: String,
    pub target: QuickTarget,
}

pub enum QuickTargetView {
    OpenProject(Seq<char>),
    OpenDoc(Seq<char>),
    EnterDir(Seq<char>),
    BackToDocumentBrowser,
    BackToProjects,
}

pub struct QuickItemView {
    pub label: Seq<char>,
    pub hint: Seq<char>,
    pub target: QuickTargetView,
}

pub open spec fn target_view(t: QuickTarget) -> QuickTargetView {
    match t {
        QuickTarget::OpenProject(id) => QuickTargetView::OpenProject(id@),
        QuickTarget::OpenDoc(p) => QuickTargetView::OpenDoc(p@),
        QuickTarget::EnterDir(p) => QuickTargetView::EnterDir(p@),
        QuickTarget::BackToDocumentBrowser => QuickTargetView::BackToDocumentBrowser,
        QuickTarget::BackToProjects => QuickTargetView::BackToProjects,
    }
}

pub open spec fn item_view(i: QuickItem) -> QuickItemView {
    QuickItemView { label: i.label@, hint: i.hint@, target: target_view(i.target) }
}

/// The entries for the directory listing: every entry but `_sidebar.md`,
/// directories as `目录 <path>/` entering them, files by path opening them.
pub open spec fn tree_items(entries: Seq<TreeEntry>) -> Seq<QuickItemView>
    decreases entries.len(),
{
    if entries.len() == 0 {
        seq![]
    } else {
        let prev = tree_items(entries.drop_last());
        let e = entries.last();
        if e.path@ == "_sidebar.md"@ {
            prev
        } else if e.entry_type@ == "tree"@ {
            prev.push(
                QuickItemView {
                    label: "目录 "@ + e.path@ + "/"@,
                    hint: "dir"@,
                    target: QuickTargetView::EnterDir(e.path@),
                },
            )
        } else {
            prev.push(
                QuickItemView {
                    label: e.path@,
                    hint: "doc"@,
                    target: QuickTargetView::OpenDoc(e.path@),
                },
            )
        }
    }
}

pub open spec fn project_item(p: ProjectRow) -> QuickItemView {
    QuickItemView {
        label: "项目 "@ + p.name@,
        hint: "project"@,
        target: QuickTargetView::OpenProject(p.id@),
    }
}

/// The quick-open list: inside a project, the directory listing and then
/// the way back (to the file list from a document, else to the projects);
/// then, when logged in, every project.
pub open spec fn quick_list(
    project_open: bool,
    entries: Seq<TreeEntry>,
    doc_open: bool,
    logged_in: bool,
    rows: Seq<ProjectRow>,
) -> Seq<QuickItemView> {
    let back = if doc_open {
        QuickItemView {
            label: "返回文件列表"@,
            hint: "esc"@,
            target: QuickTargetView::BackToDocumentBrowser,
        }
    } else {
        QuickItemView {
            label: "返回项目列表"@,
            hint: "esc"@,
            target: QuickTargetView::BackToProjects,
        }
    };
    (if project_open {
        tree_items(entries).push(back)
    } else {
        seq![]
    }) + (if logged_in {
        rows.map_values(|p: ProjectRow| project_item(p))
    } else {
        seq![]
    })
}

fn tree_quick_items(entries: &[TreeEntry], items: &mut Vec<QuickItem>)
    ensures
        final(items)@.map_values(|i: QuickItem| item_view(i)) == old(items)@.map_values(
            |i: QuickItem| item_view(i),
        ) + tree_items(entries@),
{
    let ghost start = old(items)@.map_values(|i: QuickItem| item_view(i));
    let mut k: usize = 0;
    assert(entries@.take(0) =~= Seq::<TreeEntry>::empty());
    assert(start + tree_items(entries@.take(0)) =~= start);
    while k < entries.len()
        invariant
            k <= entries@.len(),
            items@.map_values(|i: QuickItem| item_view(i)) == start + tree_items(
                entries@.take(k as int),
            ),
        decreases entries@.len() - k,
    {
        let e = &entries[k];
        assert(entries@.take(k + 1).drop_last() =~= entries@.take(k as int));
        assert(entries@.take(k + 1).last() == *e);
        let ghost before = items@;
        if !str_eq(e.path.as_str(), "_sidebar.md") {
            let item = if str_eq(e.entry_type.as_str(), "tree") {
                let mut label = to_owned_string("目录 ");
                push_str(&mut label, e.path.as_str());
                push_str(&mut label, "/");
                QuickItem {
                    label,
                    hint: to_owned_string("dir"),
                    target: QuickTarget::EnterDir(to_owned_string(e.path.as_str())),
                }
            } else {
                QuickItem {
                    label: to_owned_string(e.path.as_str()),
                    hint: to_owned_string("doc"),
                    target: QuickTarget::OpenDoc(to_owned_string(e.path.as_str())),
                }
            };
            items.push(item);
            assert(items@.map_values(|i: QuickItem| item_view(i)) =~= before.map_values(
                |i: QuickItem| item_view(i),
            ).push(item_view(item)));
        }
        k = k + 1;
    }
    assert(entries@.take(entries@.len() as int) =~= entries@);
}

pub fn quick_items(
    project_open: bool,
    entries: &[TreeEntry],
    doc_open: bool,
    logged_in: bool,
    rows: &[ProjectRow],
) -> (r: Vec<QuickItem>)
    ensures
        r@.map_values(|i: QuickItem| item_view(i)) == quick_list(
            project_open,
            entries@,
            doc_open,
            logged_in,
            rows@,
        ),
{
    let mut items: Vec<QuickItem> = Vec::new();
    if project_open {
        tree_quick_items(entries, &mut items);
        let back = if doc_open {
            QuickItem {
                label: to_owned_string("返回文件列表"),
                hint: to_owned_string("esc"),
                target: QuickTarget::BackToDocumentBrowser,
            }
        } else {
            QuickItem {
                label: to_owned_string("返回项目列表"),
                hint: to_owned_string("esc"),
                target: QuickTarget::BackToProjects,
            }
        };
        let ghost before = items@;
        items.push(back);
        assert(items@.map_values(|i: QuickItem| item_view(i)) =~= before.map_values(
            |i: QuickItem| item_view(i),
        ).push(item_view(back)));
    }
    let ghost head = items@.map_values(|i: QuickItem| item_view(i));
    if logged_in {
        let mut k: usize = 0;
        while k < rows.len()
            invariant
                k <= rows@.len(),
                items@.map_values(|i: QuickItem| item_view(i)) == head + rows@.take(
                    k as int,
                ).map_values(|p: ProjectRow| project_item(p)),
            decreases rows@.len() - k,
        {
            let p = &rows[k];
            let mut label = to_owned_string("项目 ");
            push_str(&mut label, p.name.as_str());
            let item = QuickItem {
                label,
                hint: to_owned_string("project"),
                target: QuickTarget::OpenProject(to_owned_string(p.id.as_str())),
            };
            let ghost before = items@;
            items.push(item);
            assert(items@.map_values(|i: QuickItem| item_view(i)) =~= before.map_values(
                |i: QuickItem| item_view(i),
            ).push(item_view(item)));
            assert(rows@.take(k + 1).map_values(|p: ProjectRow| project_item(p)) =~= rows@.take(
                k as int,
            ).map_values(|p: ProjectRow| project_item(p)).push(project_item(*p)));
            k = k + 1;
        }
        assert(rows@.take(rows@.len() as int) =~= rows@);
    }
    assert(items@.map_values(|i: QuickItem| item_view(i)) =~= quick_list(
        project_open,
        entries@,
        doc_open,
        logged_in,
        rows@,
    ));
    items
}

/// What `str::to_lowercase` gives for a text (Unicode lower case, which can
/// change the length of a text).
pub uninterp spec fn unicode_lowercase(s: Seq<char>) -> Seq<char>;

/// `str::to_lowercase`: its result is named by [`unicode_lowercase`] of the
/// argument; nothing more of it is stated.
#[verifier::external_body]
fn lowercase(s: &str) -> (r: String)
    ensures
        r@ == unicode_lowercase(s@),
{
    s.to_lowercase()
}

/// Whether a quick-open entry stays in the list for a query: always for an
/// empty query; else when the lower-cased query occurs in the lower-cased
/// label or in the hint.
pub open spec fn quick_match(lowered_query: Seq<char>, lowered_label: Seq<char>, hint: Seq<char>) -> bool {
    lowered_query.len() == 0 || contains(lowered_label, lowered_query) || contains(
        hint,
        lowered_query,
    )
}

pub fn quick_item_matches(lowered_query: &str, lowered_label: &str, hint: &str) -> (b: bool)
    ensures
        b == quick_match(lowered_query@, lowered_label@, hint@),
{
    lowered_query.is_empty() || str_contains(lowered_label, lowered_query) || str_contains(
        hint,
        lowered_query,
    )
}

pub open spec fn keeps_item(query: Seq<char>, i: QuickItem) -> bool {
    quick_match(unicode_lowercase(query), unicode_lowercase(i.label@), i.hint@)
}

/// The quick-open entries left once `query` is typed, in their order.
pub fn filter_quick_items(query: &str, items: Vec<QuickItem>) -> (r: Vec<QuickItem>)
    ensures
        r@ == items@.filter(|i: QuickItem| keeps_item(query@, i)),
{
    let q = lowercase(query);
    let ghost all = items@;
    let mut out: Vec<QuickItem> = Vec::new();
    assert(all.take(0) =~= Seq::<QuickItem>::empty());
    proof {
        reveal(Seq::filter);
    }
    assert(all.take(0).filter(|i: QuickItem| keeps_item(query@, i)) =~= Seq::<QuickItem>::empty());
    for item in it: items
        invariant
            it.seq() == all,
            q@ == unicode_lowercase(query@),
            out@ == all.take(it.index() as int).filter(|i: QuickItem| keeps_item(query@, i)),
    {
        let ghost k = it.index();
        assert(all.take(k + 1).drop_last() =~= all.take(k as int));
        assert(all.take(k + 1).last() == item);
        proof {
            reveal(Seq::filter);
        }
        let label = lowercase(item.label.as_str());
        if quick_item_matches(q.as_str(), label.as_str(), item.hint.as_str()) {
            out.push(item);
        }
    }
    assert(all.take(all.len() as int) =~= all);
    out
}

/// Whether a project card stays for a query: always for an empty query;
/// else when the lower-cased query occurs in the lower-cased name or
/// description.
pub open spec fn project_match(lowered_query: Seq<char>, lowered_name: Seq<char>, lowered_description: Seq<char>) -> bool {
    lowered_query.len() == 0 || contains(lowered_name, lowered_query) || contains(
        lowered_description,
        lowered_query,
    )
}

pub fn project_matches(lowered_query: &str, lowered_name: &str, lowered_description: &str) -> (b: bool)
    ensures
        b == project_match(lowered_query@, lowered_name@, lowered_description@),
{
    lowered_query.is_empty() || str_contains(lowered_name, lowered_query) || str_contains(
        lowered_description,
        lowered_query,
    )
}

pub open spec fn keeps_project(query: Seq<char>, r: ProjectRow) -> bool {
    project_match(
        unicode_lowercase(query),
        unicode_lowercase(r.name@),
        unicode_lowercase(r.description@),
    )
}

/// The project cards left once `query` is typed, in their order.
pub fn filter_projects(query: &str, rows: Vec<ProjectRow>) -> (r: Vec<ProjectRow>)
    ensures
        r@ == rows@.filter(|p: ProjectRow| keeps_project(query@, p)),
{
    let q = lowercase(query);
    let ghost all = rows@;
    let mut out: Vec<ProjectRow> = Vec::new();
    assert(all.take(0) =~= Seq::<ProjectRow>::empty());
    proof {
        reveal(Seq::filter);
    }
    for row in it: rows
        invariant
            it.seq() == all,
            q@ == unicode_lowercase(query@),
            out@ == all.take(it.index() as int).filter(|p: ProjectRow| keeps_project(query@, p)),
    {
        let ghost k = it.index();
        assert(all.take(k + 1).drop_last() =~= all.take(k as int));
        assert(all.take(k + 1).last() == row);
        proof {
            reveal(Seq::filter);
        }
        let name = lowercase(row.name.as_str());
        let description = lowercase(row.description.as_str());
        if project_matches(q.as_str(), name.as_str(), description.as_str()) {
            out.push(row);
        }
    }
    assert(all.take(all.len() as int) =~= all);
    out
}

/// What an empty project grid says: no projects yet, or none matching.
pub fn empty_projects_label(lowered_query: &str) -> (r: &'static str)
    ensures
        r@ == if lowered_query@.len() == 0 {
            "还没有项目"@
        } else {
            "没有匹配的项目"@
        },
{
    if lowered_query.is_empty() {
        "还没有项目"
    } else {
        "没有匹配的项目"
    }
}

/// What typing in the project search does: a blank query clears the
/// results; otherwise the trimmed query is searched, unless a search is
/// already on its way.
#[derive(Clone, Debug, PartialEq, Eq)]
pub enum SearchStep {
    Clear,
    Run(String),
    Wait,
}

pub fn search_step(input: &str, loading: bool) -> (r: SearchStep)
    ensures
        trim(input@).len() == 0 ==> r == SearchStep::Clear,
        trim(input@).len() > 0 && loading ==> r == SearchStep::Wait,
        trim(input@).len() > 0 && !loading ==> (r matches SearchStep::Run(q) && q@ == trim(input@)),
{
    let q = trimmed(input);
    if q.as_str().is_empty() {
        SearchStep::Clear
    } else if loading {
        SearchStep::Wait
    } else {
        SearchStep::Run(q)
    }
}

/// A search reply is shown only while the box still holds the query it
/// answers (trimmed).
pub fn search_reply_current(input: &str, asked: &str) -> (b: bool)
    ensures
        b == (trim(input@) == asked@),
{
    let q = trimmed(input);
    str_eq(q.as_str(), asked)
}

/// What the Escape key depends on.
#[derive(Clone, Copy, Debug)]
pub struct EscapeContext {
    pub quick_open: bool,
    pub search_open: bool,
    pub history_open: bool,
    pub editing: bool,
    pub saving: bool,
    pub screen: Screen,
    pub project_open: bool,
    pub doc_open: bool,
}

/// What Escape does.
#[derive(Clone, Copy, Debug, PartialEq, Eq)]
pub enum EscapeAction {
    CloseQuickOpen,
    CloseSearch,
    CloseHistory,
    AskToLeaveEdit,
    BackToDocumentBrowser,
    BackToProjects,
    BackToWorkspace,
    Nothing,
}

/// Escape closes the innermost layer first: quick open, then the project
/// search, then the history; while editing it asks to leave the edit
/// (nothing while a save is in flight); in an open project it goes back to
/// the file list or the project list; from the settings, the API
/// reference or the audit page it returns to the workspace.
pub open spec fn escape_effect(c: EscapeContext) -> EscapeAction {
    if c.quick_open {
        EscapeAction::CloseQuickOpen
    } else if c.search_open {
        EscapeAction::CloseSearch
    } else if c.history_open {
        EscapeAction::CloseHistory
    } else if c.editing {
        if c.saving {
            EscapeAction::Nothing
        } else {
            EscapeAction::AskToLeaveEdit
        }
    } else if c.screen == Screen::Workspace && c.project_open {
        if c.doc_open {
            EscapeAction::BackToDocumentBrowser
        } else {
            EscapeAction::BackToProjects
        }
    } else if c.screen == Screen::Settings || c.screen == Screen::ApiReference || c.screen
        == Screen::Audit {
        EscapeAction::BackToWorkspace
    } else {
        EscapeAction::Nothing
    }
}

pub fn escape_action(c: EscapeContext) -> (r: EscapeAction)
    ensures
        r == escape_effect(c),
{
    if c.quick_open {
        EscapeAction::CloseQuickOpen
    } else if c.search_open {
        EscapeAction::CloseSearch
    } else if c.history_open {
        EscapeAction::CloseHistory
    } else if c.editing {
        if c.saving {
            EscapeAction::Nothing
        } else {
            EscapeAction::AskToLeaveEdit
        }
    } else if matches!(c.screen, Screen::Workspace) && c.project_open {
        if c.doc_open {
            EscapeAction::BackToDocumentBrowser
        } else {
            EscapeAction::BackToProjects
        }
    } else if matches!(c.screen, Screen::Settings | Screen::ApiReference | Screen::Audit) {
        EscapeAction::BackToWorkspace
    } else {
        EscapeAction::Nothing
    }
}

/// Escape never walks away from an edit: while editing it only closes an
/// overlay, asks before leaving the edit, or does nothing.
pub proof fn law_escape_keeps_the_edit(c: EscapeContext)
    requires
        c.editing,
    ensures
        escape_effect(c) != EscapeAction::BackToDocumentBrowser,
        escape_effect(c) != EscapeAction::BackToProjects,
        escape_effect(c) != EscapeAction::BackToWorkspace,
{
}

/// While a document is being edited, the palette offers no way out of the
/// edit: neither going back, editing, the settings nor logging out; the
/// theme stays on offer.
pub proof fn law_palette_keeps_the_edit(c: PaletteContext)
    requires
        c.editing,
    ensures
        forall|i: int|
            0 <= i < palette_entries(c).len() ==> {
                let id = (#[trigger] palette_entries(c)[i]).0;
                id != "back"@ && id != "edit"@ && id != "settings"@ && id != "logout"@
            },
        exists|i: int|
            0 <= i < palette_entries(c).len() && (#[trigger] palette_entries(c)[i]).0 == "theme"@,
{
    reveal_strlit("back");
    reveal_strlit("edit");
    reveal_strlit("settings");
    reveal_strlit("logout");
    reveal_strlit("theme");
    reveal_strlit("history");
    reveal_strlit("new-project");
    let e = palette_entries(c);
    let head: Seq<(Seq<char>, Seq<char>, Seq<char>)> = if c.project_open {
        (if !c.history_open && c.doc_open {
            seq![("history"@, "查看历史"@, "file"@)]
        } else {
            seq![]
        })
    } else if c.logged_in {
        seq![("new-project"@, "新建项目"@, "dialog"@)]
    } else {
        seq![]
    };
    assert(e =~= head + seq![("theme"@, "切换主题"@, "⌘⇧T"@)]);
    assert(e[head.len() as int].0 == "theme"@);
    assert forall|i: int| 0 <= i < e.len() implies {
        let id = (#[trigger] e[i]).0;
        id != "back"@ && id != "edit"@ && id != "settings"@ && id != "logout"@
    } by {
        let id = e[i].0;
        assert(id == "history"@ || id == "new-project"@ || id == "theme"@);
    }
}

/// Picking "back" while editing does nothing.
pub proof fn law_back_is_inert_while_editing(doc_open: bool)
    ensures
        palette_action("back"@, true, doc_open) is None,
{
}

/// A query whose lower case is empty keeps the whole quick-open list, in
/// its order.
pub proof fn law_empty_query_keeps_all(query: Seq<char>, items: Seq<QuickItem>)
    requires
        unicode_lowercase(query).len() == 0,
    ensures
        items.filter(|i: QuickItem| keeps_item(query, i)) == items,
    decreases items.len(),
{
    reveal(Seq::filter);
    if items.len() > 0 {
        law_empty_query_keeps_all(query, items.drop_last());
        assert(keeps_item(query, items.last()));
        assert(items.drop_last().push(items.last()) =~= items);
    }
}

} // verus!
