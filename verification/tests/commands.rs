use xwiki::api::dto::{Project, TreeEntry};
use xwiki::commands::{
    filter_quick_items, palette_commands, quick_item_matches, quick_items, run_command,
    PaletteAction, PaletteContext, QuickTarget,
};
use xwiki::workspace::ProjectRow;

fn ctx(project_open: bool, logged_in: bool, editing: bool, doc_open: bool, history_open: bool) -> PaletteContext {
    PaletteContext { project_open, logged_in, editing, doc_open, history_open }
}

fn ids(c: PaletteContext) -> Vec<&'static str> {
    palette_commands(c).iter().map(|p| p.id).collect()
}

fn entry(name: &str, kind: &str, path: &str) -> TreeEntry {
    TreeEntry { name: name.into(), entry_type: kind.into(), path: path.into(), sha: String::new() }
}

fn row(id: &str, name: &str) -> ProjectRow {
    ProjectRow::from_dto(&Project {
        id: id.into(),
        name: name.into(),
        description: String::new(),
        archived: false,
        created_at: String::new(),
        updated_at: String::new(),
    })
}

#[test]
fn palette_offers_what_the_state_allows() {
    assert_eq!(ids(ctx(true, true, false, true, false)), ["back", "history", "edit", "theme", "settings", "logout"]);
    let cmds = palette_commands(ctx(true, true, false, true, false));
    assert_eq!(cmds[0].label, "返回文件列表");
    assert_eq!(cmds[2].hint, "lock + changeset");
    assert_eq!(palette_commands(ctx(true, true, false, false, false))[0].label, "返回项目列表");
    assert_eq!(ids(ctx(true, true, true, true, false)), ["history", "theme"]);
    assert_eq!(ids(ctx(false, true, false, false, false)), ["new-project", "theme", "settings", "logout"]);
    assert_eq!(ids(ctx(false, false, false, false, false)), ["theme"]);
}

#[test]
fn palette_commands_route_to_actions() {
    assert_eq!(run_command("back", true, true), None);
    assert_eq!(run_command("back", false, true), Some(PaletteAction::BackToDocumentBrowser));
    assert_eq!(run_command("back", false, false), Some(PaletteAction::BackToProjects));
    assert_eq!(run_command("theme", true, false), Some(PaletteAction::ToggleTheme));
    assert_eq!(run_command("logout", false, false), Some(PaletteAction::Logout));
    assert_eq!(run_command("nope", false, false), None);
}

#[test]
fn quick_open_lists_tree_way_back_and_projects() {
    let entries = vec![
        entry("docs", "tree", "docs"),
        entry("_sidebar.md", "blob", "_sidebar.md"),
        entry("README.md", "blob", "docs/README.md"),
    ];
    let rows = vec![row("p1", "Proj")];
    let items = quick_items(true, &entries, false, true, &rows);
    let labels: Vec<&str> = items.iter().map(|i| i.label.as_str()).collect();
    assert_eq!(labels, ["目录 docs/", "docs/README.md", "返回项目列表", "项目 Proj"]);
    assert_eq!(items[0].target, QuickTarget::EnterDir("docs".into()));
    assert_eq!(items[1].target, QuickTarget::OpenDoc("docs/README.md".into()));
    assert_eq!(items[2].target, QuickTarget::BackToProjects);
    assert_eq!(items[3].target, QuickTarget::OpenProject("p1".into()));
    assert_eq!(items[3].hint, "project");
    let items = quick_items(false, &entries, true, false, &rows);
    assert!(items.is_empty());
}

#[test]
fn quick_open_filter_ignores_case_of_labels() {
    let entries = vec![entry("README.md", "blob", "docs/README.md"), entry("a", "blob", "notes/a.md")];
    let items = quick_items(true, &entries, true, false, &[]);
    let kept = filter_quick_items("Readme", items);
    let labels: Vec<&str> = kept.iter().map(|i| i.label.as_str()).collect();
    assert_eq!(labels, ["docs/README.md"]);

    let items = quick_items(true, &entries, true, false, &[]);
    assert_eq!(filter_quick_items("", items).len(), 3);
    let items = quick_items(true, &entries, true, false, &[]);
    let kept = filter_quick_items("esc", items);
    assert_eq!(kept.len(), 1, "the hint is searched too");
    assert_eq!(kept[0].target, QuickTarget::BackToDocumentBrowser);
}

#[test]
fn quick_match_rule() {
    assert!(quick_item_matches("", "anything", "doc"));
    assert!(quick_item_matches("read", "docs/readme.md", "doc"));
    assert!(quick_item_matches("dir", "x", "dir"));
    assert!(!quick_item_matches("zzz", "docs/readme.md", "doc"));
}

use xwiki::commands::{empty_projects_label, filter_projects, project_matches, search_reply_current, search_step, SearchStep};

#[test]
fn project_cards_filter_on_name_and_description() {
    let mut rows = vec![row("p1", "Alpha"), row("p2", "Beta")];
    rows[1].description = "Team WIKI".into();
    let kept = filter_projects("wiki", rows.clone());
    assert_eq!(kept.len(), 1);
    assert_eq!(kept[0].id, "p2");
    let kept = filter_projects("ALP", rows.clone());
    assert_eq!(kept.len(), 1);
    assert_eq!(kept[0].id, "p1");
    assert_eq!(filter_projects("", rows).len(), 2);
    assert!(project_matches("", "x", "y"));
    assert!(!project_matches("z", "x", "y"));
    assert_eq!(empty_projects_label(""), "还没有项目");
    assert_eq!(empty_projects_label("q"), "没有匹配的项目");
}

#[test]
fn search_box_steps() {
    assert_eq!(search_step("  ", false), SearchStep::Clear);
    assert_eq!(search_step(" auth ", false), SearchStep::Run("auth".into()));
    assert_eq!(search_step("auth", true), SearchStep::Wait);
    assert!(search_reply_current(" auth ", "auth"));
    assert!(!search_reply_current("autho", "auth"));
}

use xwiki::commands::{escape_action, EscapeAction, EscapeContext};
use xwiki::workspace::Screen;

fn esc(quick_open: bool, search_open: bool, history_open: bool, editing: bool, saving: bool, screen: Screen, project_open: bool, doc_open: bool) -> EscapeAction {
    escape_action(EscapeContext { quick_open, search_open, history_open, editing, saving, screen, project_open, doc_open })
}

#[test]
fn escape_closes_the_innermost_layer_first() {
    assert_eq!(esc(true, true, true, true, false, Screen::Workspace, true, true), EscapeAction::CloseQuickOpen);
    assert_eq!(esc(false, true, true, true, false, Screen::Workspace, true, true), EscapeAction::CloseSearch);
    assert_eq!(esc(false, false, true, true, false, Screen::Workspace, true, true), EscapeAction::CloseHistory);
    assert_eq!(esc(false, false, false, true, false, Screen::Workspace, true, true), EscapeAction::AskToLeaveEdit);
    assert_eq!(esc(false, false, false, true, true, Screen::Workspace, true, true), EscapeAction::Nothing);
    assert_eq!(esc(false, false, false, false, false, Screen::Workspace, true, true), EscapeAction::BackToDocumentBrowser);
    assert_eq!(esc(false, false, false, false, false, Screen::Workspace, true, false), EscapeAction::BackToProjects);
    assert_eq!(esc(false, false, false, false, false, Screen::Audit, false, false), EscapeAction::BackToWorkspace);
    assert_eq!(esc(false, false, false, false, false, Screen::Login, false, false), EscapeAction::Nothing);
    assert_eq!(esc(false, false, false, false, false, Screen::Workspace, false, false), EscapeAction::Nothing);
}
