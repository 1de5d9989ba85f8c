use xwiki::project_changes::{
    markdown_heading, parse_document_patch, parse_hunk_header, try_parse_document_patch,
    PatchLineKind,
};

#[test]
fn parses_document_location_and_changed_lines() {
    let patch = r#"diff --git a/docs/auth.md b/docs/auth.md
index 111..222 100644
--- a/docs/auth.md
+++ b/docs/auth.md
@@ -8,4 +8,5 @@
 ## Token 刷新
 旧说明
-过期后重新登录
+过期前自动刷新
+失败后重新登录
"#;
    let files = parse_document_patch(patch);
    assert_eq!(files.len(), 1);
    assert_eq!(files[0].path, "docs/auth.md");
    let hunk = &files[0].hunks[0];
    assert_eq!(hunk.heading, "Token 刷新");
    assert_eq!(hunk.new_start, 8);
    assert!(hunk.lines.iter().any(|line| {
        line.kind == PatchLineKind::Add
            && line.new_line == Some(10)
            && line.content == "过期前自动刷新"
    }));
    assert!(hunk.lines.iter().any(|line| {
        line.kind == PatchLineKind::Delete
            && line.old_line == Some(10)
            && line.content == "过期后重新登录"
    }));
}

#[test]
fn keeps_deleted_file_path_and_ignores_binary_patch() {
    let patch = r#"diff --git a/docs/old.md b/docs/old.md
deleted file mode 100644
--- a/docs/old.md
+++ /dev/null
@@ -1 +0,0 @@
-old
diff --git a/logo.png b/logo.png
Binary files a/logo.png and b/logo.png differ
"#;
    let files = parse_document_patch(patch);
    assert_eq!(files.len(), 1);
    assert_eq!(files[0].path, "docs/old.md");
}

#[test]
fn hunk_header_reads_starts_and_heading() {
    assert_eq!(
        parse_hunk_header("@@ -12,3 +14,6 @@ ## Setup "),
        Some((12, 14, "## Setup".to_string()))
    );
    assert_eq!(parse_hunk_header("@@ -1 +0,0 @@"), Some((1, 0, String::new())));
    assert_eq!(parse_hunk_header("@@ -+7 +8 @@"), Some((7, 8, String::new())));
    assert_eq!(parse_hunk_header("@@ -x +1 @@"), None);
    assert_eq!(parse_hunk_header("@@ -1 +1"), None);
    assert_eq!(parse_hunk_header("@@ -4294967296 +1 @@"), None);
    assert_eq!(parse_hunk_header("-- -1 +1 @@"), None);
    assert_eq!(parse_hunk_header("@@ -x,1 +1 @@"), None);
    assert_eq!(parse_hunk_header("@@ -1 +2@@"), None);
    assert_eq!(parse_hunk_header("index 1..2"), None);
    assert_eq!(parse_hunk_header("@@ -3 +4 @@ @@ x"), Some((3, 4, "@@ x".to_string())));
}

#[test]
fn markdown_heading_levels_and_closing_hashes() {
    assert_eq!(markdown_heading("  ### Title ##  "), Some("Title".to_string()));
    assert_eq!(markdown_heading("###### six"), Some("six".to_string()));
    assert_eq!(markdown_heading("####### seven"), None);
    assert_eq!(markdown_heading("#nospace"), None);
    assert_eq!(markdown_heading("# ##"), None);
    assert_eq!(markdown_heading("plain"), None);
    assert_eq!(markdown_heading("\t## a  b ###"), Some("a  b".to_string()));
    assert_eq!(markdown_heading("#\tTitle"), None);
    for line in ["  ### Title ##  ", "# x", "## # y #", "#   "] {
        if let Some(h) = markdown_heading(line) {
            assert!(!h.is_empty());
            assert_eq!(h, h.trim());
        }
    }
}

#[test]
fn context_heading_is_taken_until_the_first_change() {
    let patch = "diff --git a/a.md b/a.md\n--- a/a.md\n+++ b/a.md\n@@ -1,3 +1,3 @@ intro\n ## First\n-x\n ## Second\n+y\n";
    let files = parse_document_patch(patch);
    assert_eq!(files.len(), 1);
    let hunk = &files[0].hunks[0];
    assert_eq!(hunk.heading, "First");
    assert_eq!(hunk.old_start, 1);
    assert_eq!(hunk.lines.len(), 4);
    assert_eq!(hunk.lines[0].old_line, Some(1));
    assert_eq!(hunk.lines[0].new_line, Some(1));
    assert_eq!(hunk.lines[1].kind, PatchLineKind::Delete);
    assert_eq!(hunk.lines[1].old_line, Some(2));
    assert_eq!(hunk.lines[2].old_line, Some(3));
    assert_eq!(hunk.lines[2].new_line, Some(2));
    assert_eq!(hunk.lines[3].new_line, Some(3));
}

#[test]
fn crlf_lines_and_files_without_hunks() {
    let patch = "diff --git a/a.md b/a.md\r\n--- a/a.md\r\n+++ b/a.md\r\n@@ -1 +1 @@\r\n+new\r\ndiff --git a/b.md b/b.md\r\n--- a/b.md\r\n";
    let files = parse_document_patch(patch);
    assert_eq!(files.len(), 1);
    assert_eq!(files[0].path, "a.md");
    assert_eq!(files[0].hunks[0].lines[0].content, "new");
}

#[test]
fn non_ascii_marker_inside_a_hunk_is_refused() {
    let patch = "diff --git a/a.md b/a.md\n+++ b/a.md\n@@ -1 +1 @@\n中文\n";
    assert!(try_parse_document_patch(patch).is_none());
    assert!(try_parse_document_patch("").unwrap().is_empty());
}

#[test]
fn line_numbers_count_on_from_the_hunk_header() {
    let patch = "diff --git a/x.md b/x.md\n--- a/x.md\n+++ b/x.md\n@@ -10,3 +20,4 @@\n ctx\n-old\n+new1\n+new2\n ctx2\n";
    let files = parse_document_patch(patch);
    let lines = &files[0].hunks[0].lines;
    let numbers: Vec<(Option<u32>, Option<u32>)> = lines.iter().map(|l| (l.old_line, l.new_line)).collect();
    assert_eq!(
        numbers,
        [
            (Some(10), Some(20)),
            (Some(11), None),
            (None, Some(21)),
            (None, Some(22)),
            (Some(12), Some(23)),
        ]
    );
    assert_eq!(lines[1].kind, PatchLineKind::Delete);
    assert_eq!(lines[2].kind, PatchLineKind::Add);
}

#[test]
fn files_without_hunks_are_left_out() {
    let patch = "diff --git a/img.png b/img.png\nBinary files differ\ndiff --git a/a.md b/a.md\n--- a/a.md\n+++ b/a.md\n@@ -1 +1 @@\n-a\n+b\n";
    let files = parse_document_patch(patch);
    assert_eq!(files.len(), 1);
    assert_eq!(files[0].path, "a.md");
    assert!(try_parse_document_patch("diff --git a/a b/a\n+++ b/a\n@@ -1 +1 @@\né\n").is_none(), "a hunk line that starts with a non-ASCII character");
}

#[test]
fn patches_split_at_a_file_section_parse_independently() {
    let p1 = "intro\ndiff --git a/a.md b/a.md\n--- a/a.md\n+++ b/a.md\n@@ -1 +1 @@\n-x\n+y\n";
    let p2 = "diff --git a/b.md b/b.md\n--- a/b.md\n+++ b/b.md\n@@ -2,0 +3 @@ ## Part\n+z\n";
    let whole = format!("{p1}{p2}");
    let mut expected = parse_document_patch(p1);
    expected.extend(parse_document_patch(p2));
    assert_eq!(expected.len(), 2);
    assert_eq!(parse_document_patch(&whole), expected);
    assert_eq!(parse_document_patch(&whole)[1].path, "b.md");
}
