use diagramide::entities::decode_entities;
use diagramide::grammar::{grammar_blocks, grammar_link_target, grammar_toc, parse_blocks, Block};
use diagramide::grammar_md::pikchr_grammar_md;
use diagramide::help::{gfm_table_separator, is_table_row_text, toc_text, HelpTopic, Span};

#[test]
fn help_help_topic_defaults_to_overview() {
    assert_eq!(HelpTopic::default(), HelpTopic::Overview);
}

#[test]
fn bundled_grammar_doc_is_present_and_well_formed() {
    let doc = pikchr_grammar_md();
    assert!(!doc.is_empty(), "grammar doc is empty");
    assert!(doc.starts_with("# Pikchr Grammar"), "grammar doc is missing its H1 title");
    for needle in [
        "## *statement-list*",
        "## *statement*",
        "## *attribute*",
        "## *position*",
        "## *expr*",
    ] {
        assert!(doc.contains(needle), "grammar doc is missing section header {needle:?}");
    }
}

#[test]
fn toc_excludes_fenced_comment_lines() {
    let toc = grammar_toc();
    assert!(toc.iter().any(|e| e.text == "Pikchr Grammar"), "missing H1");
    assert!(
        !toc.iter().any(|e| e.text == "Start and end blocks"),
        "fenced pikchr comment leaked into TOC"
    );
}

#[test]
fn toc_keeps_grammar_productions_and_reference_titles_visible() {
    let toc = grammar_toc();
    let visible: Vec<_> = toc.iter().filter(|e| e.level <= 3).map(|e| e.text.as_str()).collect();
    assert!(
        visible.iter().any(|e| e.starts_with("statement-list")),
        "main grammar production is missing from visible TOC"
    );
    assert!(
        visible.iter().any(|e| e.starts_with("dot-property")),
        "late grammar production is missing from visible TOC"
    );
    assert!(
        visible.contains(&"Linked reference articles"),
        "linked-doc appendix is missing from visible TOC"
    );
    assert!(visible.contains(&"statement-list"), "linked article title is missing from visible TOC");
    assert!(!visible.contains(&"Rules"), "article-local subsection leaked into visible TOC");
    assert!(
        !visible.iter().any(|e| e.starts_with('|')),
        "table row leaked into visible TOC: {visible:?}"
    );
}

#[test]
fn toc_text_drops_info_link_markers() {
    let spans = [Span {
        text: "*statement-list*: \u{25B6}info".into(),
        bold: false,
        italic: true,
        code: false,
        link_target: Some("#reference-stmtlist.md".into()),
    }];
    assert_eq!(toc_text(&spans), "*statement-list*:");
}

#[test]
fn info_links_resolve_to_reference_headings() {
    let target = grammar_link_target("#reference-stmtlist.md").expect("stmtlist anchor");
    let toc = grammar_toc();
    let heading = toc.iter().find(|entry| entry.idx == target).expect("target heading");
    assert_eq!(heading.text, "statement-list");
}

#[test]
fn pipe_table_rows_are_not_headings() {
    let blocks = parse_blocks("| Variable Name |: Purpose |\n------------------------------\n");
    assert!(
        blocks.iter().all(|block| !matches!(block, Block::Heading { .. })),
        "setext-style table row was parsed as a heading: {blocks:?}"
    );
    assert!(
        blocks.iter().any(|block| matches!(block, Block::TableRow(_))),
        "legacy table was not normalized into table rows: {blocks:?}"
    );
    assert!(is_table_row_text("| Legacy ASCII | HTML Entity | Unicode |"));
    assert_eq!(
        gfm_table_separator("| Legacy ASCII | HTML Entity | Unicode |"),
        "| --- | --- | --- |"
    );
}

#[test]
fn cached_blocks_match_fresh_parse() {
    assert_eq!(grammar_blocks(), parse_blocks(&pikchr_grammar_md()));
}

#[test]
fn inline_markup_is_parsed_into_spans() {
    let blocks = parse_blocks("a **b** c `d` e");
    let para = blocks
        .iter()
        .find_map(|b| match b {
            Block::Para(s) => Some(s),
            _ => None,
        })
        .expect("a paragraph");
    assert!(para.iter().any(|s| s.bold && s.text == "b"), "missing bold 'b'");
    assert!(para.iter().any(|s| s.code && s.text == "d"), "missing code 'd'");
    assert!(
        para.iter().all(|s| !s.text.contains("**") && !s.text.contains('`')),
        "literal markup leaked into spans: {para:?}"
    );
}

#[test]
fn html_entities_are_decoded() {
    assert_eq!(decode_entities("a &rarr; b"), "a \u{2192} b");
    assert_eq!(decode_entities("&#9654;"), "\u{25B6}");
    assert_eq!(decode_entities("&#x2192;"), "\u{2192}");
    assert_eq!(decode_entities("a & b"), "a & b");
    assert_eq!(decode_entities("&unknown;"), "&unknown;");
}
