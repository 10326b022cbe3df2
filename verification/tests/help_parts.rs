use diagramide::entities::decode_entities;
use diagramide::grammar::{grammar_link_target, normalize_doc_tables, parse_blocks, toc_entries, Block};
use diagramide::help::{
    has_links, is_legacy_table_separator, pipe_column_count, plain_text, toc_text, HelpTopic,
    HelpWindow, Span,
};
use diagramide::html::{extract_anchor_ids, html_to_text};

fn span(text: &str, link: Option<&str>) -> Span {
    Span {
        text: text.to_string(),
        bold: false,
        italic: false,
        code: false,
        link_target: link.map(|l| l.to_string()),
    }
}

#[test]
fn topic_titles() {
    assert_eq!(HelpTopic::Overview.title(), "DiagramIDE Help");
    assert_eq!(HelpTopic::Pikchr.title(), "Pikchr Help");
    assert_eq!(HelpTopic::Prolog.title(), "Prolog Help");
    assert_eq!(HelpTopic::Tcl.title(), "Tcl Help");
    assert_eq!(HelpTopic::Mruby.title(), "Ruby Help");
    assert_eq!(HelpTopic::PlainText.title(), "Plain Text Help");
    assert_eq!(HelpTopic::Render.title(), "Render Window Help");
    assert_eq!(HelpTopic::Grammar.title(), "Pikchr Grammar");
    assert!(HelpTopic::Grammar.is_grammar());
    assert!(!HelpTopic::Tcl.is_grammar());
}

#[test]
fn help_window_topics_and_titles() {
    let w = HelpWindow::new(3, HelpTopic::Grammar);
    assert_eq!(w.get_title(), "Pikchr Grammar");
    assert_eq!(w.help_topic(), HelpTopic::Pikchr);
    let g = HelpWindow::new(4, HelpTopic::Render);
    assert_eq!(g.help_topic(), HelpTopic::Overview);
    assert!(g.visible);
}

#[test]
fn a_scroll_request_is_consumed_once() {
    let mut w = HelpWindow::new(1, HelpTopic::Grammar);
    assert!(!w.take_scroll_target(5));
    w.scroll_to(5);
    assert!(!w.take_scroll_target(4));
    assert!(w.take_scroll_target(5));
    assert!(!w.take_scroll_target(5));
    assert_eq!(w.scroll_target, None);
}

#[test]
fn span_texts() {
    let spans = [span("a ", None), span("b", Some("#x")), span(" \u{25B6}info ", None)];
    assert_eq!(plain_text(&spans), "a b \u{25B6}info ");
    assert_eq!(toc_text(&spans), "a b");
    assert!(has_links(&spans));
    assert!(!has_links(&spans[..1]));
    assert_eq!(plain_text(&[]), "");
}

#[test]
fn table_helpers() {
    assert!(is_legacy_table_separator("  ---  "));
    assert!(!is_legacy_table_separator("--"));
    assert!(!is_legacy_table_separator("-- -"));
    assert_eq!(pipe_column_count("| a | b |"), 2);
    assert_eq!(pipe_column_count("a | b"), 2);
    assert_eq!(pipe_column_count("| a"), 2);
    assert_eq!(pipe_column_count("|"), 0);
    assert_eq!(pipe_column_count("plain"), 1);
}

#[test]
fn legacy_tables_become_pipe_tables_outside_fences() {
    let src = "| A | B |\n---\n```\n| x |\n---\n```\n";
    assert_eq!(normalize_doc_tables(src), "| A | B |\n| --- | --- |\n```\n| x |\n---\n```\n");
}

#[test]
fn html_fragments_become_text() {
    assert_eq!(html_to_text("<p>a &amp; b</p>"), "a & b");
    assert_eq!(extract_anchor_ids("<a id=\"one\"></a><h2 id=\"two\">"), vec!["one", "two"]);
    assert!(extract_anchor_ids("<a id=\"open").is_empty());
}

#[test]
fn numeric_references_to_surrogates_stay_literal() {
    assert_eq!(decode_entities("&#55296;"), "&#55296;");
    assert_eq!(decode_entities("&#x110000;"), "&#x110000;");
    assert_eq!(decode_entities("&#65;&lt;"), "A<");
}

#[test]
fn markdown_headings_reach_the_table_of_contents() {
    let blocks = parse_blocks("# Title\n\ntext\n\n## Sub *one*\n");
    let toc = toc_entries(&blocks);
    assert_eq!(toc.len(), 2);
    assert_eq!(toc[0].text, "Title");
    assert_eq!(toc[0].idx, 0);
    assert_eq!(toc[1].level, 2);
    assert_eq!(toc[1].idx, 1);
    assert!(blocks.iter().any(|b| matches!(b, Block::Para(_))));
}

#[test]
fn unknown_link_targets_resolve_to_nothing() {
    assert_eq!(grammar_link_target("#no-such-anchor"), None);
    assert_eq!(grammar_link_target("reference-stmtlist.md"), None);
}
