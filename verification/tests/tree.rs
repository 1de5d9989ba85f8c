use xwiki::api::dto::TreeEntry;
use xwiki::tree::{breadcrumbs, tree_count_label, tree_key, tree_rows, TreeKey};

fn entry(kind: &str, path: &str) -> TreeEntry {
    TreeEntry { name: path.into(), entry_type: kind.into(), path: path.into(), sha: String::new() }
}

fn rows() -> Vec<(String, bool)> {
    tree_rows(&[
        entry("tree", "docs"),
        entry("blob", "_sidebar.md"),
        entry("blob", "docs/a.md"),
        entry("blob", "docs/b.md"),
    ])
}

#[test]
fn listing_leaves_out_the_sidebar() {
    let r = rows();
    assert_eq!(
        r,
        vec![("docs".to_string(), true), ("docs/a.md".to_string(), false), ("docs/b.md".to_string(), false)]
    );
    assert_eq!(tree_count_label(3), "root · 3 items");
    assert_eq!(tree_count_label(1), "root · 1 item");
    assert_eq!(tree_count_label(0), "root · 0 items");
}

#[test]
fn keys_move_round_the_listing() {
    let r = rows();
    assert_eq!(tree_key("up", None, &r, ""), TreeKey::Focus(2));
    assert_eq!(tree_key("down", Some(2), &r, ""), TreeKey::Focus(0));
    assert_eq!(tree_key("down", Some(9), &r, ""), TreeKey::Focus(0), "focus clamps to the last row");
    assert_eq!(tree_key("right", Some(0), &r, ""), TreeKey::EnterDir("docs".into()));
    assert_eq!(tree_key("right", Some(1), &r, ""), TreeKey::Stay);
    assert_eq!(tree_key("enter", Some(1), &r, ""), TreeKey::OpenDoc("docs/a.md".into()));
    assert_eq!(tree_key("enter", Some(0), &r, ""), TreeKey::EnterDir("docs".into()));
    assert_eq!(tree_key("left", Some(0), &r, "a/b/c"), TreeKey::EnterDir("a/b".into()));
    assert_eq!(tree_key("left", Some(0), &r, "a"), TreeKey::EnterDir(String::new()));
    assert_eq!(tree_key("x", Some(0), &r, ""), TreeKey::Ignore);
    assert_eq!(tree_key("up", Some(0), &[], ""), TreeKey::Ignore);
}

#[test]
fn breadcrumbs_follow_the_non_empty_pieces() {
    assert_eq!(
        breadcrumbs("a//b/c"),
        vec![
            ("a".to_string(), "a".to_string()),
            ("a/b".to_string(), "b".to_string()),
            ("a/b/c".to_string(), "c".to_string()),
        ]
    );
    assert_eq!(breadcrumbs("/docs/"), vec![("docs".to_string(), "docs".to_string())]);
    assert!(breadcrumbs("").is_empty());
    assert!(breadcrumbs("///").is_empty());
}
