//! How the grammar reference is laid out on screen, short of drawing it:
//! which table-of-contents entries are shown, which blocks form one table
//! and how many columns it has, and where following a link scrolls to.
use vstd::prelude::*;
use crate::grammar::{
    blocks_view, grammar_link_target, spec_link_target, spec_parse_doc, Block, BlockV, TocEntry,
    TocEntryV,
};
use crate::grammar_md::grammar_md_text;
use crate::help::HelpWindow;

verus! {

/// The deepest heading level the table of contents shows: the grammar
/// productions and the titles of the appended articles, but not the
/// articles' own subsections.
pub const TOC_MAX_LEVEL: u8 = 3;

/// The entries of `toc` that the table of contents shows, in order.
pub open spec fn visible_toc_of(toc: Seq<TocEntryV>) -> Seq<TocEntryV>
    decreases toc.len(),
{
    if toc.len() == 0 {
        toc
    } else {
        let prev = visible_toc_of(toc.drop_last());
        if toc.last().level <= TOC_MAX_LEVEL {
            prev.push(toc.last())
        } else {
            prev
        }
    }
}

/// The entries of `toc` that the table of contents shows.
pub fn visible_toc(toc: &Vec<TocEntry>) -> (r: Vec<TocEntry>)
    ensures
        r@.map_values(|e: TocEntry| e@) == visible_toc_of(toc@.map_values(|e: TocEntry| e@)),
{
    let ghost tv = toc@.map_values(|e: TocEntry| e@);
    let mut r: Vec<TocEntry> = Vec::new();
    let mut i: usize = 0;
    assert(tv.take(0) =~= Seq::<TocEntryV>::empty());
    assert(r@.map_values(|e: TocEntry| e@) =~= Seq::<TocEntryV>::empty());
    while i < toc.len()
        invariant
            0 <= i <= toc.len(),
            tv == toc@.map_values(|e: TocEntry| e@),
            r@.map_values(|e: TocEntry| e@) == visible_toc_of(tv.take(i as int)),
        decreases toc.len() - i,
    {
        assert(tv.take(i + 1).drop_last() =~= tv.take(i as int));
        assert(tv.take(i + 1).last() == toc@[i as int]@);
        let e = &toc[i];
        if e.level <= TOC_MAX_LEVEL {
            let ghost before = r@.map_values(|e: TocEntry| e@);
            let copy = TocEntry { level: e.level, idx: e.idx, text: e.text.clone() };
            r.push(copy);
            assert(r@.map_values(|e: TocEntry| e@) =~= before.push(e@));
        }
        i = i + 1;
    }
    assert(tv.take(toc.len() as int) =~= tv);
    r
}

/// A piece of the laid-out document: one block, or a table made of the
/// rows `start..end` with the given number of columns.
#[derive(Debug, Clone, Copy, PartialEq, Eq, Structural)]
pub enum Piece {
    Single(usize),
    Table(usize, usize, usize),
}

/// Whether `b` is a table row.
pub open spec fn is_row(b: BlockV) -> bool {
    b is TableRow
}

/// How many cells `b` has if it is a table row.
pub open spec fn row_cells(b: BlockV) -> nat {
    match b {
        BlockV::TableRow(cells) => cells.len(),
        _ => 0,
    }
}

/// Where the run of table rows from `j` on ends.
pub open spec fn run_end(b: Seq<BlockV>, j: int) -> int
    decreases b.len() - j,
{
    if j < 0 || j >= b.len() || !is_row(b[j]) {
        j
    } else {
        run_end(b, j + 1)
    }
}

/// The most cells of a row among `b[s..e]`.
pub open spec fn max_cells(b: Seq<BlockV>, s: int, e: int) -> nat
    decreases e - s,
{
    if e <= s {
        0
    } else {
        let m = max_cells(b, s, e - 1);
        let c = row_cells(b[e - 1]);
        if c > m {
            c
        } else {
            m
        }
    }
}

/// The layout of `b` from block `i` on: each maximal run of table rows is
/// one table, with as many columns as its widest row (at least one); every
/// other block stands alone.
pub open spec fn layout_from(b: Seq<BlockV>, i: int) -> Seq<Piece>
    decreases b.len() - i,
{
    if i < 0 || i >= b.len() {
        Seq::empty()
    } else if is_row(b[i]) {
        proof {
            lemma_run_end(b, i + 1);
        }
        let e = run_end(b, i + 1);
        let m = max_cells(b, i, e);
        seq![Piece::Table(i as usize, e as usize, if m > 1 { m as usize } else { 1 })] + layout_from(
            b,
            e,
        )
    } else {
        seq![Piece::Single(i as usize)] + layout_from(b, i + 1)
    }
}

/// A run of rows ends after where it starts, and within the blocks.
pub proof fn lemma_run_end(b: Seq<BlockV>, j: int)
    requires
        0 <= j <= b.len(),
    ensures
        j <= run_end(b, j) <= b.len(),
    decreases b.len() - j,
{
    if j < b.len() && is_row(b[j]) {
        lemma_run_end(b, j + 1);
    }
}

/// Where a piece starts.
pub open spec fn piece_start(p: Piece) -> int {
    match p {
        Piece::Single(i) => i as int,
        Piece::Table(s, _, _) => s as int,
    }
}

/// Where a piece ends (one past its last block).
pub open spec fn piece_end(p: Piece) -> int {
    match p {
        Piece::Single(i) => i + 1,
        Piece::Table(_, e, _) => e as int,
    }
}

/// The pieces `ps` tile the blocks `i..b.len()` of `b` in order: each
/// starts where the one before ends, a table holds table rows only and is
/// followed by a block that is not a row, and a single block is not a row.
pub open spec fn tiles(b: Seq<BlockV>, ps: Seq<Piece>, i: int) -> bool {
    &&& ps.len() == 0 <==> i >= b.len()
    &&& ps.len() > 0 ==> piece_start(ps[0]) == i && piece_end(ps.last()) == b.len()
    &&& forall|k: int| 0 <= k < ps.len() - 1 ==> piece_end(#[trigger] ps[k]) == piece_start(ps[k + 1])
    &&& forall|k: int| 0 <= k < ps.len() ==> piece_start(#[trigger] ps[k]) < piece_end(ps[k]) <= b.len()
    &&& forall|k: int| 0 <= k < ps.len() && #[trigger] ps[k] is Single ==> !is_row(b[piece_start(ps[k])])
    &&& forall|k: int, j: int|
        0 <= k < ps.len() && #[trigger] ps[k] is Table && piece_start(ps[k]) <= j < piece_end(ps[k])
            ==> is_row(#[trigger] b[j])
    &&& forall|k: int|
        0 <= k < ps.len() && #[trigger] ps[k] is Table && piece_end(ps[k]) < b.len()
            ==> !is_row(b[piece_end(ps[k])])
}

/// Every block of the document lies in exactly one piece of its layout, in
/// order; tables are maximal runs of table rows, and no row stands alone.
pub proof fn law_layout_tiles(b: Seq<BlockV>, i: int)
    requires
        0 <= i <= b.len(),
        b.len() <= usize::MAX,
    ensures
        tiles(b, layout_from(b, i), i),
    decreases b.len() - i,
{
    let ps = layout_from(b, i);
    if i < b.len() {
        if is_row(b[i]) {
            lemma_run_end(b, i + 1);
            let e = run_end(b, i + 1);
            law_layout_tiles(b, e);
            lemma_run_rows(b, i + 1);
            let rest = layout_from(b, e);
            let m = max_cells(b, i, e);
            let p0 = Piece::Table(i as usize, e as usize, if m > 1 { m as usize } else { 1 });
            assert(ps == seq![p0] + rest);
            assert forall|k: int| 0 <= k < ps.len() - 1 implies piece_end(#[trigger] ps[k]) == piece_start(ps[k + 1]) by {
                if k > 0 {
                    assert(ps[k] == rest[k - 1] && ps[k + 1] == rest[k]);
                } else {
                    assert(ps[1] == rest[0]);
                }
            }
            assert forall|k: int| 0 <= k < ps.len() implies piece_start(#[trigger] ps[k]) < piece_end(ps[k]) <= b.len() by {
                if k > 0 {
                    assert(ps[k] == rest[k - 1]);
                }
            }
            assert forall|k: int| 0 <= k < ps.len() && #[trigger] ps[k] is Single implies !is_row(b[piece_start(ps[k])]) by {
                if k > 0 {
                    assert(ps[k] == rest[k - 1]);
                }
            }
            assert forall|k: int, j: int|
                0 <= k < ps.len() && #[trigger] ps[k] is Table && piece_start(ps[k]) <= j < piece_end(ps[k])
                    implies is_row(#[trigger] b[j]) by {
                if k > 0 {
                    assert(ps[k] == rest[k - 1]);
                } else if j > i {
                    assert(i + 1 <= j < e);
                }
            }
            assert forall|k: int|
                0 <= k < ps.len() && #[trigger] ps[k] is Table && piece_end(ps[k]) < b.len()
                    implies !is_row(b[piece_end(ps[k])]) by {
                if k > 0 {
                    assert(ps[k] == rest[k - 1]);
                }
            }
            if rest.len() > 0 {
                assert(ps.last() == rest.last());
            }
        } else {
            law_layout_tiles(b, i + 1);
            let rest = layout_from(b, i + 1);
            assert(ps == seq![Piece::Single(i as usize)] + rest);
            assert forall|k: int| 0 <= k < ps.len() - 1 implies piece_end(#[trigger] ps[k]) == piece_start(ps[k + 1]) by {
                if k > 0 {
                    assert(ps[k] == rest[k - 1] && ps[k + 1] == rest[k]);
                } else {
                    assert(ps[1] == rest[0]);
                }
            }
            assert forall|k: int| 0 <= k < ps.len() implies piece_start(#[trigger] ps[k]) < piece_end(ps[k]) <= b.len() by {
                if k > 0 {
                    assert(ps[k] == rest[k - 1]);
                }
            }
            assert forall|k: int| 0 <= k < ps.len() && #[trigger] ps[k] is Single implies !is_row(b[piece_start(ps[k])]) by {
                if k > 0 {
                    assert(ps[k] == rest[k - 1]);
                }
            }
            assert forall|k: int, j: int|
                0 <= k < ps.len() && #[trigger] ps[k] is Table && piece_start(ps[k]) <= j < piece_end(ps[k])
                    implies is_row(#[trigger] b[j]) by {
                assert(k > 0);
                assert(ps[k] == rest[k - 1]);
            }
            assert forall|k: int|
                0 <= k < ps.len() && #[trigger] ps[k] is Table && piece_end(ps[k]) < b.len()
                    implies !is_row(b[piece_end(ps[k])]) by {
                assert(k > 0);
                assert(ps[k] == rest[k - 1]);
            }
            if rest.len() > 0 {
                assert(ps.last() == rest.last());
            }
        }
    }
}

/// The blocks from `j` up to the end of their run are rows, and the block
/// ending the run, if any, is not.
proof fn lemma_run_rows(b: Seq<BlockV>, j: int)
    requires
        0 <= j <= b.len(),
    ensures
        forall|x: int| j <= x < run_end(b, j) ==> is_row(#[trigger] b[x]),
        run_end(b, j) < b.len() ==> !is_row(b[run_end(b, j)]),
    decreases b.len() - j,
{
    if j < b.len() && is_row(b[j]) {
        lemma_run_rows(b, j + 1);
    }
}

/// Lays out `blocks`: the pieces in document order.
pub fn layout_blocks(blocks: &Vec<Block>) -> (r: Vec<Piece>)
    ensures
        r@ == layout_from(blocks_view(blocks@), 0),
{
    let ghost b = blocks_view(blocks@);
    let n = blocks.len();
    let mut r: Vec<Piece> = Vec::new();
    let mut i: usize = 0;
    while i < n
        invariant
            0 <= i <= n,
            n == blocks.len(),
            b == blocks_view(blocks@),
            b.len() == n,
            r@ + layout_from(b, i as int) == layout_from(b, 0),
        decreases n - i,
    {
        let is_table_row = match &blocks[i] {
            Block::TableRow(_) => true,
            _ => false,
        };
        assert(b[i as int] == blocks@[i as int]@);
        if is_table_row {
            let mut e = i + 1;
            let mut m: usize = match &blocks[i] {
                Block::TableRow(cells) => cells.len(),
                _ => 0,
            };
            assert(max_cells(b, i as int, i + 1) == m) by {
                assert(max_cells(b, i as int, i as int) == 0);
            }
            proof {
                lemma_run_end(b, i + 1);
            }
            let mut more = true;
            while more && e < n
                invariant
                    i < e <= n,
                    n == blocks.len(),
                    b == blocks_view(blocks@),
                    b.len() == n,
                    run_end(b, i + 1) == run_end(b, e as int),
                    m == max_cells(b, i as int, e as int),
                    !more ==> e < n && !is_row(b[e as int]),
                decreases n - e + if more { 1int } else { 0int },
            {
                assert(b[e as int] == blocks@[e as int]@);
                match &blocks[e] {
                    Block::TableRow(cells) => {
                        let c = cells.len();
                        if c > m {
                            m = c;
                        }
                        e = e + 1;
                    },
                    _ => {
                        more = false;
                    },
                }
            }
            assert(e as int == run_end(b, e as int));
            let cols = if m > 1 {
                m
            } else {
                1
            };
            let ghost before = r@;
            r.push(Piece::Table(i, e, cols));
            assert(layout_from(b, i as int) == seq![Piece::Table(i, e, cols)] + layout_from(b, e as int));
            assert(r@ + layout_from(b, e as int) =~= before + layout_from(b, i as int));
            i = e;
        } else {
            let ghost before = r@;
            r.push(Piece::Single(i));
            assert(r@ + layout_from(b, i + 1) =~= before + layout_from(b, i as int));
            i = i + 1;
        }
    }
    assert(layout_from(b, n as int) =~= Seq::<Piece>::empty());
    assert(r@ =~= r@ + layout_from(b, n as int));
    r
}

/// Follows a link of the grammar reference from `window`: when the target
/// names an anchor of the reference, the window is asked to scroll to the
/// heading it points at; otherwise nothing changes. The window keeps its
/// id, place, topic and visibility either way.
pub fn follow_link(window: &mut HelpWindow, target: &str)
    ensures
        *final(window) == (HelpWindow {
            scroll_target: match spec_link_target(spec_parse_doc(grammar_md_text()).1, target@) {
                Some(i) => Some(i as usize),
                None => old(window).scroll_target,
            },
            ..*old(window)
        }),
{
    match grammar_link_target(target) {
        Some(idx) => window.scroll_to(idx),
        None => {},
    }
}

} // verus!
