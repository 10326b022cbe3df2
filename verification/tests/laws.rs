use diagramide::entities::decode_entities;
use diagramide::grammar::{parse_doc, Block};
use diagramide::html::html_to_text;

#[test]
fn decoding_plain_text_changes_nothing() {
    assert_eq!(decode_entities("box \"a\" at 1,2; # no references"), "box \"a\" at 1,2; # no references");
    assert_eq!(decode_entities(""), "");
}

#[test]
fn html_text_lines_are_trimmed_and_non_blank() {
    let t = html_to_text("<table>\n<tr><td> a </td><td>b</td></tr>\n\n<tr><td>c</td></tr>\n</table>");
    assert!(!t.is_empty());
    for line in t.split('\n') {
        assert!(!line.is_empty());
        assert_eq!(line, line.trim());
    }
}

#[test]
fn doc_anchor_targets_are_heading_indices() {
    let doc = parse_doc("<a id=\"x\"></a>\n\n# One\n\ntext\n\n<a id=\"y\"></a>\n\n## Two\n");
    let headings: Vec<usize> = doc
        .blocks
        .iter()
        .filter_map(|b| match b {
            Block::Heading { idx, .. } => Some(*idx),
            _ => None,
        })
        .collect();
    assert_eq!(headings, vec![0, 1]);
    for (_, target) in &doc.anchors {
        assert!(*target < 2);
    }
}
