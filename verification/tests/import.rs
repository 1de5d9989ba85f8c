use xwiki::api::dto::{ImportFile, UploadFile};
use xwiki::import::{
    child_relative_path, file_name, import_summary, is_markdown_import_path,
    join_document_import_path, markdown_import_files, oversize_error, skipped_entry_name,
    sort_by_path, ImportTally, MAX_IMPORT_FILES,
};

fn upload(path: &str, content: &[u8]) -> UploadFile {
    UploadFile { path: path.into(), content: content.to_vec() }
}

#[test]
fn file_names_and_markdown_paths() {
    assert_eq!(file_name("docs/a.md").as_deref(), Some("a.md"));
    assert_eq!(file_name("docs/sub/").as_deref(), Some("sub"));
    assert_eq!(file_name("docs/.."), None);
    assert!(is_markdown_import_path("docs/A.MD"));
    assert!(is_markdown_import_path("x.markdown"));
    assert!(!is_markdown_import_path("notes.txt"));
    assert!(!is_markdown_import_path(".md"));
}

#[test]
fn import_paths_join_base_and_relative() {
    assert_eq!(join_document_import_path("/guide/", "/a\\b.md"), "guide/a/b.md");
    assert_eq!(join_document_import_path("", "a.md"), "a.md");
    assert_eq!(join_document_import_path("base", ""), "base");
}

#[test]
fn folder_imports_keep_utf8_markdown() {
    let files = vec![upload("a.md", b"# A"), upload("b.png", &[0xff, 0xd8]), upload("c/d.markdown", b"x")];
    let out = markdown_import_files("kb", files).unwrap();
    let paths: Vec<&str> = out.iter().map(|f| f.path.as_str()).collect();
    assert_eq!(paths, ["kb/a.md", "kb/c/d.markdown"]);
    assert_eq!(out[0].content, "# A");
    let bad = vec![upload("a.md", b"ok"), upload("bad.md", &[0xff])];
    assert_eq!(
        markdown_import_files("", bad).err().as_deref(),
        Some("文件 bad.md 不是 UTF-8 Markdown。")
    );
}

#[test]
fn import_summary_names_five_files() {
    let files: Vec<ImportFile> = (1..=7)
        .map(|i| ImportFile { path: format!("f{i}.md"), content: String::new() })
        .collect();
    assert_eq!(import_summary(&files[..2]), "将导入 2 个文件：f1.md、f2.md");
    assert_eq!(
        import_summary(&files),
        "将导入 7 个文件：f1.md、f2.md、f3.md、f4.md、f5.md 等 2 个文件"
    );
}

#[test]
fn folder_walk_limits() {
    let mut t = ImportTally::new();
    assert_eq!(t.note_directory(), None);
    assert_eq!(t.directories, 1);
    assert_eq!(t.file_slot_error(), None);
    assert_eq!(t.add_file(10), None);
    assert_eq!(t.files, 1);
    assert_eq!(
        t.add_file(128 * 1024 * 1024).as_deref(),
        Some("导入内容超过 128 MiB 总大小限制")
    );
    t.files = MAX_IMPORT_FILES;
    assert_eq!(t.file_slot_error().as_deref(), Some("文件数量超过 10000 个限制"));
    t.directories = 100_000;
    assert_eq!(t.note_directory().as_deref(), Some("文件夹层级项目过多，超过 100000 个目录限制"));
    assert!(skipped_entry_name(".git") && skipped_entry_name(".DS_Store"));
    assert!(!skipped_entry_name("docs"));
    assert_eq!(child_relative_path("", "a"), "a");
    assert_eq!(child_relative_path("x/y", "a"), "x/y/a");
    assert_eq!(oversize_error(6 * 1024 * 1024, 5 * 1024 * 1024).as_deref(), Some("文件超过 5 MiB 限制"));
    assert_eq!(oversize_error(5, 5), None);
}

#[test]
fn found_files_are_ordered_by_path() {
    let files = vec![upload("b/z.md", b"1"), upload("a.md", b"2"), upload("b/a.md", b"3"), upload("B.md", b"4")];
    let sorted = sort_by_path(files);
    let paths: Vec<&str> = sorted.iter().map(|f| f.path.as_str()).collect();
    assert_eq!(paths, ["B.md", "a.md", "b/a.md", "b/z.md"]);
    assert_eq!(sorted[1].content, b"2");
}
