use diagramide::grammar::{grammar_link_target, parse_blocks, Block, TocEntry};
use diagramide::grammar_view::{follow_link, layout_blocks, visible_toc, Piece};
use diagramide::help::{HelpTopic, HelpWindow};

fn entry(level: u8, idx: usize, text: &str) -> TocEntry {
    TocEntry { level, idx, text: text.to_string() }
}

#[test]
fn the_contents_show_three_levels() {
    let toc = vec![entry(1, 0, "A"), entry(4, 1, "deep"), entry(3, 2, "C"), entry(2, 3, "B")];
    let v = visible_toc(&toc);
    assert_eq!(v, vec![entry(1, 0, "A"), entry(3, 2, "C"), entry(2, 3, "B")]);
}

#[test]
fn runs_of_rows_form_one_table() {
    let blocks = parse_blocks("intro\n\n| A | B |\n|---|---|\n| 1 | 2 |\n| 3 | 4 |\n\nafter\n");
    let rows = blocks.iter().filter(|b| matches!(b, Block::TableRow(_))).count();
    assert_eq!(rows, 3);
    let pieces = layout_blocks(&blocks);
    assert_eq!(pieces, vec![Piece::Single(0), Piece::Table(1, 4, 2), Piece::Single(4)]);
}

#[test]
fn layout_of_no_blocks_is_empty() {
    assert!(layout_blocks(&vec![]).is_empty());
    let blocks = parse_blocks("one\n\ntwo\n");
    assert_eq!(layout_blocks(&blocks), vec![Piece::Single(0), Piece::Single(1)]);
}

#[test]
fn following_a_link_scrolls_to_its_heading() {
    let mut w = HelpWindow::new(1, HelpTopic::Grammar);
    follow_link(&mut w, "#no-such-anchor");
    assert_eq!(w.scroll_target, None);
    follow_link(&mut w, "#reference-stmtlist.md");
    assert_eq!(w.scroll_target, grammar_link_target("#reference-stmtlist.md"));
    assert!(w.scroll_target.is_some());
}

#[test]
fn layout_covers_every_block_once() {
    let blocks = parse_blocks("| A |\n|---|\n| 1 |\n\nmiddle\n\n| x | y | z |\n|---|---|---|\n");
    let pieces = layout_blocks(&blocks);
    let mut next = 0usize;
    for p in &pieces {
        let (s, e) = match *p {
            Piece::Single(i) => (i, i + 1),
            Piece::Table(s, e, _) => (s, e),
        };
        assert_eq!(s, next);
        assert!(s < e);
        next = e;
    }
    assert_eq!(next, blocks.len());
    assert_eq!(pieces.len(), 3);
    assert!(matches!(pieces[0], Piece::Table(0, _, 1)));
    assert!(matches!(pieces[2], Piece::Table(_, _, 3)));
}
