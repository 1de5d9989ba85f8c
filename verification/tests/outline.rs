use xwiki::outline::{parse_document, yaml_front_matter_end, OutlineEntry};

#[test]
fn extracts_nested_headings_and_sections_in_document_order() {
    let parsed = parse_document("前言\n\n# 项目概览\n\n## 安装 `xwiki`\n\n### 下一步\n\n正文");

    assert_eq!(
        parsed.entries,
        vec![
            OutlineEntry {
                level: 1,
                text: "项目概览".into(),
                section: 1,
            },
            OutlineEntry {
                level: 2,
                text: "安装 xwiki".into(),
                section: 2,
            },
            OutlineEntry {
                level: 3,
                text: "下一步".into(),
                section: 3,
            },
        ]
    );
    assert_eq!(parsed.sections.len(), 4);
    assert!(parsed.sections[0].source.contains("前言"));
}

#[test]
fn supports_setext_headings_and_ignores_fenced_code() {
    let parsed = parse_document("标题\n===\n\n```md\n# 不是标题\n```\n\n## 真标题");

    assert_eq!(
        parsed
            .entries
            .iter()
            .map(|entry| entry.text.as_str())
            .collect::<Vec<_>>(),
        vec!["标题", "真标题"]
    );
}

#[test]
fn excludes_leading_yaml_metadata_from_the_outline() {
    let parsed = parse_document(
        "---\ntitle: 资讯管理\nmodule: 资讯管理\nversion: v1.0\nsummary: 平台资讯的创建、查询、详情、修改\n---\n\n# 资讯管理\n\n## 创建资讯",
    );

    assert_eq!(
        parsed
            .entries
            .iter()
            .map(|entry| entry.text.as_str())
            .collect::<Vec<_>>(),
        vec!["资讯管理", "创建资讯"]
    );
    assert!(
        parsed.sections[0]
            .source
            .starts_with("---\ntitle: 资讯管理")
    );
}

#[test]
fn documents_without_headings_still_have_one_renderable_section() {
    let parsed = parse_document("只有正文");
    assert!(parsed.entries.is_empty());
    assert_eq!(parsed.sections.len(), 1);
    assert_eq!(parsed.sections[0].source, "只有正文");
}

#[test]
fn front_matter_end_counts_bytes() {
    assert_eq!(yaml_front_matter_end("---\na: 中\n---\nbody"), Some(15));
    assert_eq!(yaml_front_matter_end("---\r\nx\r\n...\r\n"), Some(13));
    assert_eq!(yaml_front_matter_end("\u{feff}---\n---\n"), Some(11));
    assert_eq!(yaml_front_matter_end("--- \nx\n---\n"), None);
    assert_eq!(yaml_front_matter_end("---\nnever closed\n"), None);
    assert_eq!(yaml_front_matter_end(""), None);
    assert_eq!(yaml_front_matter_end("---\nx\n...\ny\n---\n"), Some(10));
    assert_eq!(yaml_front_matter_end("---\n--- \n---"), Some(12));
}

#[test]
fn sections_join_back_to_the_source() {
    let source = "# A\ntext\n## B\nmore\n#### deep\n";
    let parsed = parse_document(source);
    let joined: String = parsed.sections.iter().map(|s| s.source.as_str()).collect();
    assert_eq!(joined, source);
    assert_eq!(parsed.entries.len(), 2);
    assert_eq!(parsed.entries[0].section, 0);
}

#[test]
fn every_parsed_document_rebuilds_its_source() {
    for source in [
        "前言\n\n# 项目概览\n\n## 安装\n\n正文",
        "# 标题\n正文\n## 次级\n",
        "---\ntitle: x\n---\n# 一\n二",
        "只有正文",
        "",
    ] {
        let parsed = parse_document(source);
        let joined: String = parsed.sections.iter().map(|s| s.source.as_str()).collect();
        assert_eq!(joined, source);
        for (i, e) in parsed.entries.iter().enumerate() {
            assert!(e.section < parsed.sections.len());
            if i > 0 {
                assert!(parsed.entries[i - 1].section < e.section);
            }
        }
    }
}

#[test]
fn outline_texts_have_single_spaces() {
    let parsed = parse_document("#   Hello   *big*\tworld  \n\ntext");
    assert_eq!(parsed.entries.len(), 1);
    assert_eq!(parsed.entries[0].text, "Hello big world");
}

#[test]
fn outline_entries_follow_an_optional_leading_section() {
    for source in ["# A\n\ntext\n\n#### deep\n\n## B  *b*\n", "lead\n\n# A\n", "", "no headings\n"] {
        let parsed = parse_document(source);
        assert!(!parsed.sections.is_empty());
        assert!(source.is_empty() || parsed.sections.iter().all(|s| !s.source.is_empty()));
        assert_eq!(parsed.sections.iter().map(|s| s.source.as_str()).collect::<String>(), source);
        let k = parsed.sections.len() - parsed.entries.len();
        assert!(k == 1 || (k == 0 && !parsed.entries.is_empty()));
        for (i, e) in parsed.entries.iter().enumerate() {
            assert_eq!(e.section, i + k);
            assert!((1..=3).contains(&e.level));
            assert!(!e.text.is_empty());
            assert_eq!(e.text, e.text.split_whitespace().collect::<Vec<_>>().join(" "));
        }
    }
    let parsed = parse_document("# A\n\ntext\n\n#### deep\n\n## B  *b*\n");
    assert_eq!(parsed.sections.len(), 2);
    assert_eq!(parsed.entries[1].text, "B b");
}
