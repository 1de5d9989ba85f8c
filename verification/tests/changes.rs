use xwiki::api::dto::Commit;
use xwiki::api::network_error;
use xwiki::changes::{ChangeDetail, ChangesPager, CHANGES_PAGE_SIZE};

fn commits(n: usize) -> Vec<Commit> {
    (0..n)
        .map(|i| Commit { sha: format!("c{i}"), message: String::new(), author: String::new(), date: String::new() })
        .collect()
}

#[test]
fn pager_pages_through_commits() {
    let mut p = ChangesPager::new();
    let req = p.begin(true).expect("first page");
    assert_eq!((req.offset, req.limit, req.generation), (0, CHANGES_PAGE_SIZE, 1));
    assert!(p.begin(false).is_none(), "one page at a time");
    assert!(p.finish(req, true, Ok(commits(20))));
    assert!(p.has_more && !p.loading);
    assert_eq!(p.commits.len(), 20);

    let req2 = p.begin(false).unwrap();
    assert_eq!(req2.offset, 20);
    assert!(p.finish(req2, true, Ok(commits(3))));
    assert!(!p.has_more, "a short page is the last one");
    assert_eq!(p.commits.len(), 23);
}

#[test]
fn pager_drops_stale_replies() {
    let mut p = ChangesPager::new();
    let old = p.begin(false).unwrap();
    p.loading = false;
    let fresh = p.begin(true).unwrap();
    assert!(!p.finish(old, true, Ok(commits(5))), "reply from before the reset");
    assert!(p.commits.is_empty() && p.loading);
    assert!(!p.finish(fresh, false, Ok(commits(5))), "another project");
    assert!(p.finish(fresh, true, Err(network_error("down"))));
    assert_eq!(p.error.as_deref(), Some("加载项目变更失败: 无法连接到服务，请检查地址和网络连接。"));
}

#[test]
fn detail_unfolds_and_folds() {
    let mut d = ChangeDetail::new();
    let g = d.toggle("abc", true).unwrap();
    assert_eq!(d.expanded.as_deref(), Some("abc"));
    assert!(d.loading);
    let patch = "diff --git a/a.md b/a.md\n--- a/a.md\n+++ b/a.md\n@@ -1 +1 @@\n-x\n+y\n";
    assert!(!d.finish(true, "zzz", g, Ok(patch.to_string())), "another commit");
    assert!(d.finish(true, "abc", g, Ok(patch.to_string())));
    assert_eq!(d.files.len(), 1);
    assert_eq!(d.files[0].path, "a.md");
    assert!(d.toggle("abc", true).is_none());
    assert!(d.expanded.is_none() && d.files.is_empty());
    assert!(d.toggle("def", false).is_none());
    assert!(d.expanded.is_none());
}
