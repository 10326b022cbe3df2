//! The bundled Pikchr grammar reference: old-style tables rewritten for the
//! markdown parser, the parser's events folded into renderable blocks, the
//! table of contents, and the anchors that links point at.
use vstd::prelude::*;
use crate::entities::{decode, decode_entities};
use crate::help::{
    concat_texts, gfm_table_separator_chars, is_legacy_separator_range, is_table_row_range,
    is_table_row_text, opt_view, plain_text, spans_view, spec_gfm_table_separator,
    spec_is_legacy_table_separator, spec_is_table_row_text, Span, SpanV,
};
use crate::html::{anchor_ids, extract_anchor_ids, html_text, html_to_text};
use crate::markdown::{events_view, markdown_events, parse_markdown, MdEvent, MdEventV};
use crate::grammar_md::{grammar_md_text, pikchr_grammar_md};
use crate::text::{
    chars_of, lines, lines_bounds, push_range, starts_with, string_of, trim, trim_range,
    trim_start, trim_start_range,
};

verus! {

/// A line that opens or closes a fenced code block: once trimmed on the
/// left it starts with three backticks or three tildes.
pub open spec fn is_fence_line(line: Seq<char>) -> bool {
    let t = trim_start(line);
    starts_with(t, seq!['`', '`', '`']) || starts_with(t, seq!['~', '~', '~'])
}

/// The three-character fence mark of a fence line.
pub open spec fn fence_mark(line: Seq<char>) -> Seq<char> {
    trim_start(line).take(3)
}

/// The normalised text of lines `i..` of `ls`, given whether a fenced block
/// is open and with which mark. Every line is kept and ends with `'\n'`;
/// outside fenced blocks, a table row followed by a line of dashes has the
/// dashes replaced by a GitHub table separator row for its columns.
pub open spec fn normalize_from(ls: Seq<Seq<char>>, i: int, in_fence: bool, fence: Seq<char>)
    -> Seq<char>
    decreases ls.len() - i,
{
    if i < 0 || i >= ls.len() {
        Seq::empty()
    } else {
        let line = ls[i];
        if is_fence_line(line) {
            let mark = fence_mark(line);
            let (open, f) = if in_fence && mark == fence {
                (false, Seq::<char>::empty())
            } else if !in_fence {
                (true, mark)
            } else {
                (in_fence, fence)
            };
            line + seq!['\n'] + normalize_from(ls, i + 1, open, f)
        } else if !in_fence && spec_is_table_row_text(line) && i + 1 < ls.len()
            && spec_is_legacy_table_separator(ls[i + 1]) {
            line + seq!['\n'] + spec_gfm_table_separator(line) + seq!['\n'] + normalize_from(
                ls,
                i + 2,
                in_fence,
                fence,
            )
        } else {
            line + seq!['\n'] + normalize_from(ls, i + 1, in_fence, fence)
        }
    }
}

/// The document `src` with its old-style tables (a `|` row underlined by
/// dashes) turned into GitHub tables, line endings normalised to `'\n'`.
pub open spec fn spec_normalize_doc_tables(src: Seq<char>) -> Seq<char> {
    normalize_from(lines(src), 0, false, Seq::empty())
}

/// Whether `v[lo..hi]` is a fence line.
fn is_fence_range(v: &Vec<char>, lo: usize, hi: usize) -> (r: Option<usize>)
    requires
        lo <= hi <= v.len(),
    ensures
        match r {
            Some(a) => is_fence_line(v@.subrange(lo as int, hi as int)) && lo <= a && a + 3 <= hi
                && fence_mark(v@.subrange(lo as int, hi as int)) == v@.subrange(
                a as int,
                a + 3,
            ),
            None => !is_fence_line(v@.subrange(lo as int, hi as int)),
        },
{
    let a = trim_start_range(v, lo, hi);
    let ghost t = v@.subrange(a as int, hi as int);
    if hi - a >= 3 {
        assert(t.take(3) =~= v@.subrange(a as int, a + 3));
        let backticks = v[a] == '`' && v[a + 1] == '`' && v[a + 2] == '`';
        let tildes = v[a] == '~' && v[a + 1] == '~' && v[a + 2] == '~';
        assert(v@.subrange(a as int, a + 3)[0] == v@[a as int]);
        assert(v@.subrange(a as int, a + 3)[1] == v@[a + 1]);
        assert(v@.subrange(a as int, a + 3)[2] == v@[a + 2]);
        if backticks || tildes {
            assert(v@.subrange(a as int, a + 3) =~= if backticks {
                seq!['`', '`', '`']
            } else {
                seq!['~', '~', '~']
            });
            Some(a)
        } else {
            assert(v@.subrange(a as int, a + 3) != seq!['`', '`', '`']);
            assert(v@.subrange(a as int, a + 3) != seq!['~', '~', '~']);
            None
        }
    } else {
        None
    }
}

/// Whether `v[a..a+3]` is the mark `fence`.
fn mark_is(v: &Vec<char>, a: usize, fence: &Vec<char>) -> (r: bool)
    requires
        a + 3 <= v.len(),
    ensures
        r == (v@.subrange(a as int, a + 3) == fence@),
{
    if fence.len() != 3 {
        return false;
    }
    let r = v[a] == fence[0] && v[a + 1] == fence[1] && v[a + 2] == fence[2];
    if r {
        assert(v@.subrange(a as int, a + 3) =~= fence@);
    } else {
        proof {
            if v@.subrange(a as int, a + 3) == fence@ {
                assert(v@.subrange(a as int, a + 3)[0] == v@[a as int]);
                assert(v@.subrange(a as int, a + 3)[1] == v@[a + 1]);
                assert(v@.subrange(a as int, a + 3)[2] == v@[a + 2]);
            }
        }
    }
    r
}

/// Rewrites the old-style tables of the documentation (a `|` row underlined
/// by a line of dashes, which markdown would read as a heading) as GitHub
/// tables, leaving fenced code blocks untouched.
pub fn normalize_doc_tables_chars(v: &Vec<char>) -> (out: Vec<char>)
    ensures
        out@ == spec_normalize_doc_tables(v@),
{
    let ls = lines_bounds(v);
    let ghost lsv = lines(v@);
    let mut out: Vec<char> = Vec::new();
    let mut in_fence = false;
    let mut fence: Vec<char> = Vec::new();
    let mut i: usize = 0;
    while i < ls.len()
        invariant
            ls.len() == lsv.len(),
            lsv == lines(v@),
            forall|k: int|
                0 <= k < ls.len() ==> {
                    &&& #[trigger] ls@[k].0 <= ls@[k].1 <= v.len()
                    &&& v@.subrange(ls@[k].0 as int, ls@[k].1 as int) == lsv[k]
                },
            forall|k: int| 0 <= k < ls.len() - 1 ==> #[trigger] ls@[k].1 < v.len(),
            0 <= i <= ls.len(),
            out@ + normalize_from(lsv, i as int, in_fence, fence@) == normalize_from(
                lsv,
                0,
                false,
                Seq::empty(),
            ),
        decreases ls.len() - i,
    {
        let (lo, hi) = ls[i];
        assert(ls@[i as int].0 <= ls@[i as int].1 <= v.len());
        let ghost line = lsv[i as int];
        let ghost o = out@;
        match is_fence_range(v, lo, hi) {
            Some(a) => {
                push_range(&mut out, v, lo, hi);
                out.push('\n');
                if in_fence && mark_is(v, a, &fence) {
                    in_fence = false;
                    fence = Vec::new();
                } else if !in_fence {
                    in_fence = true;
                    let mut m: Vec<char> = Vec::new();
                    push_range(&mut m, v, a, a + 3);
                    assert(m@ =~= v@.subrange(a as int, a + 3));
                    fence = m;
                }
                assert(out@ =~= o + line + seq!['\n']);
                i = i + 1;
            },
            None => {
                push_range(&mut out, v, lo, hi);
                out.push('\n');
                let mut skip_next = false;
                if !in_fence && i + 1 < ls.len() && is_table_row_range(v, lo, hi) {
                    let (nlo, nhi) = ls[i + 1];
                    assert(ls@[i + 1].0 <= ls@[i + 1].1 <= v.len());
                    assert(ls@[i as int].1 < v.len());
                    if is_legacy_separator_range(v, nlo, nhi) {
                        let sep = gfm_table_separator_chars(v, lo, hi);
                        crate::text::push_all(&mut out, &sep);
                        out.push('\n');
                        skip_next = true;
                        assert(out@ =~= o + line + seq!['\n'] + spec_gfm_table_separator(line)
                            + seq!['\n']);
                    }
                }
                if skip_next {
                    i = i + 2;
                } else {
                    assert(out@ =~= o + line + seq!['\n']);
                    i = i + 1;
                }
            },
        }
    }
    out
}

/// `normalize_doc_tables` on a string.
pub fn normalize_doc_tables(src: &str) -> (out: String)
    ensures
        out@ == spec_normalize_doc_tables(src@),
{
    let v = chars_of(src);
    let out = normalize_doc_tables_chars(&v);
    string_of(&out)
}


/// A renderable block of the grammar reference.
#[derive(Debug, Clone, PartialEq, Eq)]
pub enum Block {
    /// A heading; `idx` is its 0-based position among all headings, which
    /// the table of contents, the anchors and scrolling share.
    Heading { level: u8, idx: usize, spans: Vec<Span> },
    Para(Vec<Span>),
    ListItem(Vec<Span>),
    /// A fenced code block; its text keeps its line breaks.
    Code(String),
    /// Raw HTML rendered as readable text.
    Html(String),
    TableRow(Vec<Vec<Span>>),
    Hr,
}

/// The mathematical content of a `Block`.
pub enum BlockV {
    Heading { level: u8, idx: nat, spans: Seq<SpanV> },
    Para(Seq<SpanV>),
    ListItem(Seq<SpanV>),
    Code(Seq<char>),
    Html(Seq<char>),
    TableRow(Seq<Seq<SpanV>>),
    Hr,
}

/// The views of the cells of a table row.
pub open spec fn cells_view(cells: Seq<Vec<Span>>) -> Seq<Seq<SpanV>> {
    cells.map_values(|c: Vec<Span>| spans_view(c@))
}

impl View for Block {
    type V = BlockV;

    open spec fn view(&self) -> BlockV {
        match self {
            Block::Heading { level, idx, spans } => BlockV::Heading {
                level: *level,
                idx: *idx as nat,
                spans: spans_view(spans@),
            },
            Block::Para(s) => BlockV::Para(spans_view(s@)),
            Block::ListItem(s) => BlockV::ListItem(spans_view(s@)),
            Block::Code(t) => BlockV::Code(t@),
            Block::Html(t) => BlockV::Html(t@),
            Block::TableRow(c) => BlockV::TableRow(cells_view(c@)),
            Block::Hr => BlockV::Hr,
        }
    }
}

/// The views of a sequence of blocks.
pub open spec fn blocks_view(b: Seq<Block>) -> Seq<BlockV> {
    b.map_values(|x: Block| x@)
}

/// A block being collected: spans go to the innermost open one.
pub enum Ctx {
    Para(Vec<Span>),
    Heading(u8, usize, Vec<Span>),
    ListItem(Vec<Span>),
    Cell(Vec<Span>),
}

/// The mathematical content of a `Ctx`.
pub enum CtxV {
    Para(Seq<SpanV>),
    Heading(u8, nat, Seq<SpanV>),
    ListItem(Seq<SpanV>),
    Cell(Seq<SpanV>),
}

impl View for Ctx {
    type V = CtxV;

    open spec fn view(&self) -> CtxV {
        match self {
            Ctx::Para(s) => CtxV::Para(spans_view(s@)),
            Ctx::Heading(l, i, s) => CtxV::Heading(*l, *i as nat, spans_view(s@)),
            Ctx::ListItem(s) => CtxV::ListItem(spans_view(s@)),
            Ctx::Cell(s) => CtxV::Cell(spans_view(s@)),
        }
    }
}

/// The spans collected so far by `c`.
pub open spec fn ctx_spans(c: CtxV) -> Seq<SpanV> {
    match c {
        CtxV::Para(s) => s,
        CtxV::Heading(_, _, s) => s,
        CtxV::ListItem(s) => s,
        CtxV::Cell(s) => s,
    }
}

/// `c` with its spans replaced by `s`.
pub open spec fn ctx_with_spans(c: CtxV, s: Seq<SpanV>) -> CtxV {
    match c {
        CtxV::Para(_) => CtxV::Para(s),
        CtxV::Heading(l, i, _) => CtxV::Heading(l, i, s),
        CtxV::ListItem(_) => CtxV::ListItem(s),
        CtxV::Cell(_) => CtxV::Cell(s),
    }
}

/// Everything the fold over the parser events keeps track of.
pub struct BuildState {
    pub blocks: Seq<BlockV>,
    /// Anchor ids with the heading index each points at, in the order they
    /// were bound; a later binding of the same id wins.
    pub anchors: Seq<(Seq<char>, nat)>,
    /// Anchor ids seen since the last heading started.
    pub pending: Seq<Seq<char>>,
    pub stack: Seq<CtxV>,
    pub bold: nat,
    pub italic: nat,
    pub link: Option<Seq<char>>,
    pub headings: nat,
    /// The text of the open fenced code block, if one is open.
    pub code: Option<Seq<char>>,
    /// The cells of the open table row.
    pub row: Seq<Seq<SpanV>>,
}

/// The state before the first event.
pub open spec fn initial_state() -> BuildState {
    BuildState {
        blocks: Seq::empty(),
        anchors: Seq::empty(),
        pending: Seq::empty(),
        stack: Seq::empty(),
        bold: 0,
        italic: 0,
        link: None,
        headings: 0,
        code: None,
        row: Seq::empty(),
    }
}

/// `stack` with a span of the decoded `text` and the given style added to
/// its innermost block; unchanged when no block is open.
pub open spec fn push_span_spec(
    stack: Seq<CtxV>,
    text: Seq<char>,
    bold: bool,
    italic: bool,
    code: bool,
    link: Option<Seq<char>>,
) -> Seq<CtxV> {
    if stack.len() == 0 {
        stack
    } else {
        let top = stack.last();
        let span = SpanV { text: decode(text), bold, italic, code, link_target: link };
        stack.update(stack.len() - 1, ctx_with_spans(top, ctx_spans(top).push(span)))
    }
}

/// A line break in running text: appended to the innermost block's last
/// span, or a span of its own when the block has none yet.
pub open spec fn break_spans(spans: Seq<SpanV>) -> Seq<SpanV> {
    if spans.len() > 0 {
        let last = spans.last();
        spans.update(spans.len() - 1, SpanV { text: last.text.push('\n'), ..last })
    } else {
        spans.push(
            SpanV { text: seq!['\n'], bold: false, italic: false, code: false, link_target: None },
        )
    }
}

/// `st` with its innermost open block closed; the block's content is what
/// `closed` makes of it.
pub open spec fn pop_ctx(st: BuildState) -> BuildState {
    BuildState { stack: st.stack.drop_last(), ..st }
}

/// How one parser event changes the state.
pub open spec fn step(st: BuildState, e: MdEventV) -> BuildState {
    match e {
        MdEventV::StartParagraph => BuildState { stack: st.stack.push(CtxV::Para(Seq::empty())), ..st },
        MdEventV::EndParagraph => if st.stack.len() == 0 {
            st
        } else {
            let s2 = pop_ctx(st);
            match st.stack.last() {
                CtxV::Para(s) => if s.len() > 0 {
                    BuildState { blocks: s2.blocks.push(BlockV::Para(s)), ..s2 }
                } else {
                    s2
                },
                _ => s2,
            }
        },
        MdEventV::StartHeading(l) => BuildState {
            headings: st.headings + 1,
            anchors: st.anchors + bindings(st.pending, st.headings),
            pending: Seq::empty(),
            stack: st.stack.push(CtxV::Heading(l, st.headings, Seq::empty())),
            ..st
        },
        MdEventV::EndHeading => if st.stack.len() == 0 {
            st
        } else {
            let s2 = pop_ctx(st);
            match st.stack.last() {
                CtxV::Heading(l, i, s) => if spec_is_table_row_text(concat_texts(s)) {
                    BuildState { blocks: s2.blocks.push(BlockV::Para(s)), ..s2 }
                } else {
                    BuildState { blocks: s2.blocks.push(BlockV::Heading { level: l, idx: i, spans: s }), ..s2 }
                },
                _ => s2,
            }
        },
        MdEventV::StartItem => BuildState { stack: st.stack.push(CtxV::ListItem(Seq::empty())), ..st },
        MdEventV::EndItem => if st.stack.len() == 0 {
            st
        } else {
            let s2 = pop_ctx(st);
            match st.stack.last() {
                CtxV::ListItem(s) => BuildState { blocks: s2.blocks.push(BlockV::ListItem(s)), ..s2 },
                _ => s2,
            }
        },
        MdEventV::StartCodeBlock => BuildState { code: Some(Seq::empty()), ..st },
        MdEventV::EndCodeBlock => match st.code {
            Some(t) => BuildState { blocks: st.blocks.push(BlockV::Code(t)), code: None, ..st },
            None => st,
        },
        MdEventV::StartRow => BuildState { row: Seq::empty(), ..st },
        MdEventV::EndRow => if st.row.len() > 0 {
            BuildState { blocks: st.blocks.push(BlockV::TableRow(st.row)), row: Seq::empty(), ..st }
        } else {
            st
        },
        MdEventV::StartCell => BuildState { stack: st.stack.push(CtxV::Cell(Seq::empty())), ..st },
        MdEventV::EndCell => if st.stack.len() == 0 {
            st
        } else {
            let s2 = pop_ctx(st);
            match st.stack.last() {
                CtxV::Cell(s) => BuildState { row: s2.row.push(s), ..s2 },
                _ => s2,
            }
        },
        MdEventV::StartStrong => BuildState { bold: st.bold + 1, ..st },
        MdEventV::EndStrong => BuildState { bold: if st.bold > 0 { (st.bold - 1) as nat } else { 0 }, ..st },
        MdEventV::StartEmphasis => BuildState { italic: st.italic + 1, ..st },
        MdEventV::EndEmphasis => BuildState { italic: if st.italic > 0 { (st.italic - 1) as nat } else { 0 }, ..st },
        MdEventV::StartLink(u) => BuildState { link: Some(u), ..st },
        MdEventV::EndLink => BuildState { link: None, ..st },
        MdEventV::Text(t) => match st.code {
            Some(b) => BuildState { code: Some(b + t), ..st },
            None => BuildState {
                stack: push_span_spec(st.stack, t, st.bold > 0, st.italic > 0, false, st.link),
                ..st
            },
        },
        MdEventV::Code(t) => BuildState {
            stack: push_span_spec(st.stack, t, st.bold > 0, st.italic > 0, true, st.link),
            ..st
        },
        MdEventV::Html(t) => {
            let x = html_text(t);
            let s2 = BuildState { pending: st.pending + anchor_ids(t), ..st };
            if trim(x).len() > 0 {
                BuildState { blocks: s2.blocks.push(BlockV::Html(x)), ..s2 }
            } else {
                s2
            }
        },
        MdEventV::InlineHtml(t) => {
            let x = html_text(t);
            let s2 = BuildState { pending: st.pending + anchor_ids(t), ..st };
            if x.len() > 0 {
                BuildState {
                    stack: push_span_spec(s2.stack, x, st.bold > 0, st.italic > 0, false, st.link),
                    ..s2
                }
            } else {
                s2
            }
        },
        MdEventV::Break => match st.code {
            Some(b) => BuildState { code: Some(b.push('\n')), ..st },
            None => if st.stack.len() > 0 {
                let top = st.stack.last();
                BuildState {
                    stack: st.stack.update(
                        st.stack.len() - 1,
                        ctx_with_spans(top, break_spans(ctx_spans(top))),
                    ),
                    ..st
                }
            } else {
                st
            },
        },
        MdEventV::Rule => BuildState { blocks: st.blocks.push(BlockV::Hr), ..st },
        MdEventV::Other => st,
    }
}

/// The ids `ps`, each bound to heading `idx`.
pub open spec fn bindings(ps: Seq<Seq<char>>, idx: nat) -> Seq<(Seq<char>, nat)> {
    ps.map_values(|p: Seq<char>| (p, idx))
}

/// The state after the events `es`, in order.
pub open spec fn run(es: Seq<MdEventV>) -> BuildState
    decreases es.len(),
{
    if es.len() == 0 {
        initial_state()
    } else {
        step(run(es.drop_last()), es.last())
    }
}

/// The anchor map that a sequence of bindings produces.
pub open spec fn anchor_map(a: Seq<(Seq<char>, nat)>) -> Map<Seq<char>, nat>
    decreases a.len(),
{
    if a.len() == 0 {
        Map::empty()
    } else {
        anchor_map(a.drop_last()).insert(a.last().0, a.last().1)
    }
}

/// The parsed grammar reference: its blocks, and the heading index that
/// each anchor id refers to.
#[derive(Debug, Clone, PartialEq, Eq)]
pub struct GrammarDoc {
    pub blocks: Vec<Block>,
    /// `(id, heading index)` bindings in the order they were made; a later
    /// binding of an id replaces an earlier one.
    pub anchors: Vec<(String, usize)>,
}


/// The views of a sequence of strings.
pub open spec fn strings_view(s: Seq<String>) -> Seq<Seq<char>> {
    s.map_values(|x: String| x@)
}

/// The views of anchor bindings.
pub open spec fn anchors_view(a: Seq<(String, usize)>) -> Seq<(Seq<char>, nat)> {
    a.map_values(|x: (String, usize)| (x.0@, x.1 as nat))
}

/// The views of open blocks.
pub open spec fn ctxs_view(s: Seq<Ctx>) -> Seq<CtxV> {
    s.map_values(|c: Ctx| c@)
}

/// The fold over the parser events, as it runs.
pub struct Builder {
    pub blocks: Vec<Block>,
    pub anchors: Vec<(String, usize)>,
    pub pending: Vec<String>,
    pub stack: Vec<Ctx>,
    pub bold: usize,
    pub italic: usize,
    pub link: Option<String>,
    pub headings: usize,
    pub code: Option<String>,
    pub row: Vec<Vec<Span>>,
}

impl View for Builder {
    type V = BuildState;

    open spec fn view(&self) -> BuildState {
        BuildState {
            blocks: blocks_view(self.blocks@),
            anchors: anchors_view(self.anchors@),
            pending: strings_view(self.pending@),
            stack: ctxs_view(self.stack@),
            bold: self.bold as nat,
            italic: self.italic as nat,
            link: opt_view(self.link),
            headings: self.headings as nat,
            code: opt_view(self.code),
            row: cells_view(self.row@),
        }
    }
}

/// A copy of an optional string.
fn clone_opt(o: &Option<String>) -> (r: Option<String>)
    ensures
        opt_view(r) == opt_view(*o),
{
    match o {
        Some(s) => Some(s.clone()),
        None => None,
    }
}

/// `s` followed by `c`.
fn string_push(s: &String, c: char) -> (r: String)
    ensures
        r@ == s@.push(c),
{
    let mut v = chars_of(s.as_str());
    v.push(c);
    string_of(&v)
}

/// The spans of an open block, taken out of it, and the block left empty.
fn ctx_into_spans(c: Ctx) -> (r: (Ctx, Vec<Span>))
    ensures
        spans_view(r.1@) == ctx_spans(c@),
        forall|s: Seq<SpanV>| ctx_with_spans(r.0@, s) == ctx_with_spans(c@, s),
{
    match c {
        Ctx::Para(s) => (Ctx::Para(Vec::new()), s),
        Ctx::Heading(l, i, s) => (Ctx::Heading(l, i, Vec::new()), s),
        Ctx::ListItem(s) => (Ctx::ListItem(Vec::new()), s),
        Ctx::Cell(s) => (Ctx::Cell(Vec::new()), s),
    }
}

/// The open block `c` with its spans replaced by `s`.
fn ctx_rebuild(c: &Ctx, s: Vec<Span>) -> (r: Ctx)
    ensures
        r@ == ctx_with_spans(c@, spans_view(s@)),
{
    match c {
        Ctx::Para(_) => Ctx::Para(s),
        Ctx::Heading(l, i, _) => Ctx::Heading(*l, *i, s),
        Ctx::ListItem(_) => Ctx::ListItem(s),
        Ctx::Cell(_) => Ctx::Cell(s),
    }
}

/// Adds a span of the decoded `text` to the innermost open block.
fn push_span(
    stack: &mut Vec<Ctx>,
    text: &str,
    bold: bool,
    italic: bool,
    code: bool,
    link_target: Option<String>,
)
    ensures
        ctxs_view(final(stack)@) == push_span_spec(
            ctxs_view(old(stack)@),
            text@,
            bold,
            italic,
            code,
            opt_view(link_target),
        ),
{
    let ghost old_v = ctxs_view(stack@);
    match stack.pop() {
        None => {
            assert(ctxs_view(stack@) =~= old_v);
        },
        Some(top) => {
            let ghost top_v = top@;
            let span = Span { text: decode_entities(text), bold, italic, code, link_target };
            let (shell, mut spans) = ctx_into_spans(top);
            let ghost before = spans_view(spans@);
            spans.push(span);
            assert(spans_view(spans@) =~= before.push(span@));
            let rebuilt = ctx_rebuild(&shell, spans);
            stack.push(rebuilt);
            assert(ctxs_view(stack@) =~= old_v.update(old_v.len() - 1, rebuilt@));
        },
    }
}

/// Adds a line break to the innermost open block.
fn push_break(stack: &mut Vec<Ctx>)
    ensures
        ctxs_view(final(stack)@) == if ctxs_view(old(stack)@).len() > 0 {
            let top = ctxs_view(old(stack)@).last();
            ctxs_view(old(stack)@).update(
                ctxs_view(old(stack)@).len() - 1,
                ctx_with_spans(top, break_spans(ctx_spans(top))),
            )
        } else {
            ctxs_view(old(stack)@)
        },
{
    let ghost old_v = ctxs_view(stack@);
    match stack.pop() {
        None => {
            assert(ctxs_view(stack@) =~= old_v);
        },
        Some(top) => {
            let (shell, mut spans) = ctx_into_spans(top);
            let ghost before = spans_view(spans@);
            match spans.pop() {
                Some(last) => {
                    let text = string_push(&last.text, '\n');
                    let span = Span { text, ..last };
                    spans.push(span);
                    assert(spans_view(spans@) =~= break_spans(before));
                },
                None => {
                    let nl: Vec<char> = vec!['\n'];
                    assert(nl@ =~= seq!['\n']);
                    let span = Span {
                        text: string_of(&nl),
                        bold: false,
                        italic: false,
                        code: false,
                        link_target: None,
                    };
                    spans.push(span);
                    assert(spans_view(spans@) =~= break_spans(before));
                },
            }
            let rebuilt = ctx_rebuild(&shell, spans);
            stack.push(rebuilt);
            assert(ctxs_view(stack@) =~= old_v.update(old_v.len() - 1, rebuilt@));
        },
    }
}


impl Builder {
    /// The builder before the first event.
    pub fn new() -> (b: Builder)
        ensures
            b@ == initial_state(),
    {
        let b = Builder {
            blocks: Vec::new(),
            anchors: Vec::new(),
            pending: Vec::new(),
            stack: Vec::new(),
            bold: 0,
            italic: 0,
            link: None,
            headings: 0,
            code: None,
            row: Vec::new(),
        };
        assert(b@.blocks =~= Seq::<BlockV>::empty());
        assert(b@.anchors =~= Seq::<(Seq<char>, nat)>::empty());
        assert(b@.pending =~= Seq::<Seq<char>>::empty());
        assert(b@.stack =~= Seq::<CtxV>::empty());
        assert(b@.row =~= Seq::<Seq<SpanV>>::empty());
        b
    }

    /// Appends `blk` to the finished blocks.
    fn push_block(&mut self, blk: Block)
        ensures
            final(self)@ == (BuildState { blocks: old(self)@.blocks.push(blk@), ..old(self)@ }),
    {
        self.blocks.push(blk);
        assert(blocks_view(self.blocks@) =~= blocks_view(old(self).blocks@).push(blk@));
    }

    /// Opens the block `c`.
    fn open(&mut self, c: Ctx)
        ensures
            final(self)@ == (BuildState { stack: old(self)@.stack.push(c@), ..old(self)@ }),
    {
        self.stack.push(c);
        assert(ctxs_view(self.stack@) =~= ctxs_view(old(self).stack@).push(c@));
    }

    /// Closes the innermost open block and hands it back.
    fn close(&mut self) -> (c: Option<Ctx>)
        ensures
            old(self)@.stack.len() == 0 ==> c is None && final(self)@ == old(self)@,
            old(self)@.stack.len() > 0 ==> (c matches Some(x) && x@ == old(self)@.stack.last()),
            old(self)@.stack.len() > 0 ==> final(self)@ == pop_ctx(old(self)@),
    {
        let c = self.stack.pop();
        proof {
            if old(self).stack@.len() > 0 {
                assert(ctxs_view(self.stack@) =~= ctxs_view(old(self).stack@).drop_last());
            } else {
                assert(ctxs_view(self.stack@) =~= ctxs_view(old(self).stack@));
            }
        }
        c
    }

    /// Binds the pending anchors to heading `idx`.
    fn bind_pending(&mut self, idx: usize)
        ensures
            final(self)@ == (BuildState {
                anchors: old(self)@.anchors + bindings(old(self)@.pending, idx as nat),
                pending: Seq::empty(),
                ..old(self)@
            }),
    {
        let ghost a0 = anchors_view(self.anchors@);
        let ghost p0 = strings_view(self.pending@);
        let mut k: usize = 0;
        while k < self.pending.len()
            invariant
                0 <= k <= self.pending.len(),
                p0 == strings_view(self.pending@),
                anchors_view(self.anchors@) == a0 + bindings(p0.take(k as int), idx as nat),
                self.blocks == old(self).blocks,
                self.pending == old(self).pending,
                self.stack == old(self).stack,
                self.bold == old(self).bold,
                self.italic == old(self).italic,
                self.link == old(self).link,
                self.headings == old(self).headings,
                self.code == old(self).code,
                self.row == old(self).row,
                a0 == anchors_view(old(self).anchors@),
            decreases self.pending.len() - k,
        {
            let p = self.pending[k].clone();
            assert(p@ == p0[k as int]);
            let ghost before = anchors_view(self.anchors@);
            self.anchors.push((p, idx));
            assert(anchors_view(self.anchors@) =~= before.push((p0[k as int], idx as nat)));
            assert(bindings(p0.take(k + 1), idx as nat) =~= bindings(p0.take(k as int), idx as nat).push(
                (p0[k as int], idx as nat),
            ));
            assert(anchors_view(self.anchors@) =~= a0 + bindings(p0.take(k + 1), idx as nat));
            k = k + 1;
        }
        assert(p0.take(self.pending.len() as int) =~= p0);
        self.pending = Vec::new();
        assert(strings_view(self.pending@) =~= Seq::<Seq<char>>::empty());
    }

    /// Remembers the anchor ids declared in the HTML `t`.
    fn add_pending(&mut self, t: &str)
        ensures
            final(self)@ == (BuildState { pending: old(self)@.pending + anchor_ids(t@), ..old(self)@ }),
    {
        let ids = extract_anchor_ids(t);
        assert(strings_view(ids@) =~= ids@.map_values(|x: String| x@));
        let mut k: usize = 0;
        while k < ids.len()
            invariant
                0 <= k <= ids.len(),
                strings_view(ids@) == anchor_ids(t@),
                strings_view(self.pending@) == strings_view(old(self).pending@) + strings_view(
                    ids@,
                ).take(k as int),
                self.blocks == old(self).blocks,
                self.anchors == old(self).anchors,
                self.stack == old(self).stack,
                self.bold == old(self).bold,
                self.italic == old(self).italic,
                self.link == old(self).link,
                self.headings == old(self).headings,
                self.code == old(self).code,
                self.row == old(self).row,
            decreases ids.len() - k,
        {
            let id = ids[k].clone();
            assert(id@ == strings_view(ids@)[k as int]);
            let ghost before = strings_view(self.pending@);
            self.pending.push(id);
            assert(strings_view(self.pending@) =~= before.push(id@));
            assert(strings_view(self.pending@) =~= strings_view(old(self).pending@) + strings_view(
                ids@,
            ).take(k + 1));
            k = k + 1;
        }
        assert(strings_view(ids@).take(ids.len() as int) =~= strings_view(ids@));
    }

    /// Applies one parser event.
    #[verifier::rlimit(60)]
    pub fn apply(&mut self, e: &MdEvent)
        requires
            old(self).bold < usize::MAX,
            old(self).italic < usize::MAX,
            old(self).headings < usize::MAX,
        ensures
            final(self)@ == step(old(self)@, e@),
    {
        let ghost ev = e@;
        let ghost st0 = self@;
        assert(spans_view(Seq::<Span>::empty()) =~= Seq::<SpanV>::empty());
        match e {
            MdEvent::StartParagraph => {
                self.open(Ctx::Para(Vec::new()));
                assert(self@ == step(st0, ev));
            },
            MdEvent::EndParagraph => {
                match self.close() {
                    Some(Ctx::Para(s)) => {
                        if s.len() > 0 {
                            self.push_block(Block::Para(s));
                        }
                        assert(self@ == step(st0, ev));
                    },
                    _ => {
                        assert(self@ == step(st0, ev));
                    },
                }
            },
            MdEvent::StartHeading(l) => {
                let l = *l;
                let idx = self.headings;
                self.headings = self.headings + 1;
                self.bind_pending(idx);
                self.open(Ctx::Heading(l, idx, Vec::new()));
                assert(self@ == step(st0, ev));
            },
            MdEvent::EndHeading => {
                assert(true);
                match self.close() {
                    Some(Ctx::Heading(l, i, s)) => {
                        let text = plain_text(s.as_slice());
                        if is_table_row_text(text.as_str()) {
                            self.push_block(Block::Para(s));
                        } else {
                            self.push_block(Block::Heading { level: l, idx: i, spans: s });
                        }
                        assert(self@ == step(st0, ev));
                    },
                    _ => {
                        assert(self@ == step(st0, ev));
                    },
                }
            },
            MdEvent::StartItem => {
                self.open(Ctx::ListItem(Vec::new()));
                assert(self@ == step(st0, ev));
            },
            MdEvent::EndItem => {
                match self.close() {
                    Some(Ctx::ListItem(s)) => {
                        self.push_block(Block::ListItem(s));
                        assert(self@ == step(st0, ev));
                    },
                    _ => {
                        assert(self@ == step(st0, ev));
                    },
                }
            },
            MdEvent::StartCodeBlock => {
                self.code = Some(String::new());
                assert(self@ == step(st0, ev));
            },
            MdEvent::EndCodeBlock => {
                match self.code.take() {
                    Some(t) => {
                        self.push_block(Block::Code(t));
                        assert(self@ == step(st0, ev));
                    },
                    None => {
                        assert(self@ == step(st0, ev));
                    },
                }
            },
            MdEvent::StartRow => {
                self.row = Vec::new();
                assert(cells_view(self.row@) =~= Seq::<Seq<SpanV>>::empty());
                assert(self@ == step(st0, ev));
            },
            MdEvent::EndRow => {
                if self.row.len() > 0 {
                    let mut row: Vec<Vec<Span>> = Vec::new();
                    core::mem::swap(&mut row, &mut self.row);
                    assert(cells_view(self.row@) =~= Seq::<Seq<SpanV>>::empty());
                    self.push_block(Block::TableRow(row));
                }
                assert(self@ == step(st0, ev));
            },
            MdEvent::StartCell => {
                self.open(Ctx::Cell(Vec::new()));
                assert(self@ == step(st0, ev));
            },
            MdEvent::EndCell => {
                match self.close() {
                    Some(Ctx::Cell(s)) => {
                        let ghost r0 = cells_view(self.row@);
                        let ghost sv = spans_view(s@);
                        self.row.push(s);
                        assert(cells_view(self.row@) =~= r0.push(sv));
                        assert(self@ == step(st0, ev));
                    },
                    _ => {
                        assert(self@ == step(st0, ev));
                    },
                }
            },
            MdEvent::StartStrong => {
                self.bold = self.bold + 1;
            },
            MdEvent::EndStrong => {
                if self.bold > 0 {
                    self.bold = self.bold - 1;
                }
            },
            MdEvent::StartEmphasis => {
                self.italic = self.italic + 1;
            },
            MdEvent::EndEmphasis => {
                if self.italic > 0 {
                    self.italic = self.italic - 1;
                }
            },
            MdEvent::StartLink(u) => {
                self.link = Some(u.clone());
            },
            MdEvent::EndLink => {
                self.link = None;
            },
            MdEvent::Text(t) => {
                match self.code.take() {
                    Some(mut b) => {
                        b.append(t.as_str());
                        self.code = Some(b);
                        assert(self@ == step(st0, ev));
                    },
                    None => {
                        let link = clone_opt(&self.link);
                        push_span(
                            &mut self.stack,
                            t.as_str(),
                            self.bold > 0,
                            self.italic > 0,
                            false,
                            link,
                        );
                        assert(self@ == step(st0, ev));
                    },
                }
            },
            MdEvent::Code(t) => {
                let link = clone_opt(&self.link);
                push_span(&mut self.stack, t.as_str(), self.bold > 0, self.italic > 0, true, link);
                assert(self@ == step(st0, ev));
            },
            MdEvent::Html(t) => {
                self.add_pending(t.as_str());
                let text = html_to_text(t.as_str());
                let v = chars_of(text.as_str());
                let (a, b) = trim_range(&v, 0, v.len());
                assert(v@.subrange(0, v@.len() as int) =~= v@);
                if a < b {
                    self.push_block(Block::Html(text));
                }
                assert(self@ == step(st0, ev));
            },
            MdEvent::InlineHtml(t) => {
                self.add_pending(t.as_str());
                let text = html_to_text(t.as_str());
                if text.as_str().is_empty() == false {
                    let link = clone_opt(&self.link);
                    push_span(
                        &mut self.stack,
                        text.as_str(),
                        self.bold > 0,
                        self.italic > 0,
                        false,
                        link,
                    );
                    assert(self@ == step(st0, ev));
                } else {
                    assert(self@ == step(st0, ev));
                }
            },
            MdEvent::Break => {
                match self.code.take() {
                    Some(mut b) => {
                        let ghost b0 = b@;
                        proof {
                            reveal_strlit("\n");
                        }
                        b.append("\n");
                        assert(b@ =~= b0.push('\n'));
                        self.code = Some(b);
                        assert(self@ == step(st0, ev));
                    },
                    None => {
                        push_break(&mut self.stack);
                        assert(self@ == step(st0, ev));
                    },
                }
            },
            MdEvent::Rule => self.push_block(Block::Hr),
            MdEvent::Other => {},
        }
    }
}


/// The counters grow by at most one per event.
proof fn lemma_step_counters(st: BuildState, e: MdEventV)
    ensures
        step(st, e).bold <= st.bold + 1,
        step(st, e).italic <= st.italic + 1,
        step(st, e).headings <= st.headings + 1,
{
}

/// The blocks that the parser events `es` describe, and the anchors they
/// bind, in binding order.
pub open spec fn doc_of_events(es: Seq<MdEventV>) -> (Seq<BlockV>, Seq<(Seq<char>, nat)>) {
    (run(es).blocks, run(es).anchors)
}

/// Folds the parser events into the grammar document.
pub fn build_doc(events: &Vec<MdEvent>) -> (d: GrammarDoc)
    ensures
        (blocks_view(d.blocks@), anchors_view(d.anchors@)) == doc_of_events(events_view(events@)),
{
    let ghost es = events_view(events@);
    let mut b = Builder::new();
    let mut i: usize = 0;
    assert(es.take(0) =~= Seq::<MdEventV>::empty());
    while i < events.len()
        invariant
            0 <= i <= events.len(),
            es == events_view(events@),
            b@ == run(es.take(i as int)),
            b.bold <= i,
            b.italic <= i,
            b.headings <= i,
        decreases events.len() - i,
    {
        proof {
            lemma_step_counters(b@, es[i as int]);
        }
        b.apply(&events[i]);
        assert(es.take(i + 1).drop_last() =~= es.take(i as int));
        assert(es.take(i + 1).last() == events@[i as int]@);
        i = i + 1;
    }
    assert(es.take(events.len() as int) =~= es);
    GrammarDoc { blocks: b.blocks, anchors: b.anchors }
}

/// The grammar document that the markdown text `src` describes: its old
/// tables normalised, parsed, and folded into blocks and anchors.
pub open spec fn spec_parse_doc(src: Seq<char>) -> (Seq<BlockV>, Seq<(Seq<char>, nat)>) {
    doc_of_events(markdown_events(spec_normalize_doc_tables(src)))
}

/// Parses the markdown document `src` into renderable blocks. Headings carry
/// a stable `idx` (0-based, in document order) that the table of contents,
/// the anchors and scrolling share.
pub fn parse_doc(src: &str) -> (d: GrammarDoc)
    ensures
        (blocks_view(d.blocks@), anchors_view(d.anchors@)) == spec_parse_doc(src@),
{
    let normalized = normalize_doc_tables(src);
    let events = parse_markdown(normalized.as_str());
    build_doc(&events)
}

/// The blocks of the markdown document `src`.
pub fn parse_blocks(src: &str) -> (b: Vec<Block>)
    ensures
        blocks_view(b@) == spec_parse_doc(src@).0,
{
    parse_doc(src).blocks
}

/// The parsed grammar reference. Each call parses the bundled text again:
/// nothing is cached, so a caller that needs it often keeps the result.
/// The result depends on the bundled text alone, so every call gives the
/// same document.
pub fn grammar_doc() -> (d: GrammarDoc)
    ensures
        (blocks_view(d.blocks@), anchors_view(d.anchors@)) == spec_parse_doc(grammar_md_text()),
{
    let src = pikchr_grammar_md();
    parse_doc(src.as_str())
}

/// The blocks of the grammar reference, parsed afresh on each call (see
/// `grammar_doc`).
pub fn grammar_blocks() -> (b: Vec<Block>)
    ensures
        blocks_view(b@) == spec_parse_doc(grammar_md_text()).0,
{
    grammar_doc().blocks
}

/// The heading index that the link target `target` points at: `#` followed
/// by an anchor id that `anchors` binds.
pub open spec fn spec_link_target(anchors: Seq<(Seq<char>, nat)>, target: Seq<char>) -> Option<nat> {
    if target.len() > 0 && target[0] == '#' {
        let m = anchor_map(anchors);
        let id = target.drop_first();
        if m.contains_key(id) {
            Some(m[id])
        } else {
            None
        }
    } else {
        None
    }
}

/// The heading of `doc` that the link target `target` points at.
pub fn doc_link_target(doc: &GrammarDoc, target: &str) -> (r: Option<usize>)
    ensures
        match r {
            Some(i) => spec_link_target(anchors_view(doc.anchors@), target@) == Some(i as nat),
            None => spec_link_target(anchors_view(doc.anchors@), target@) is None,
        },
{
    let t = chars_of(target);
    if t.len() == 0 || t[0] != '#' {
        return None;
    }
    assert(target@.len() > 0 && target@[0] == '#');
    let mut id_chars: Vec<char> = Vec::new();
    push_range(&mut id_chars, &t, 1, t.len());
    assert(id_chars@ =~= target@.drop_first());
    let id = string_of(&id_chars);
    let ghost av = anchors_view(doc.anchors@);
    let mut k = doc.anchors.len();
    while k > 0
        invariant
            0 <= k <= doc.anchors.len(),
            av == anchors_view(doc.anchors@),
            id@ == target@.drop_first(),
            target@.len() > 0 && target@[0] == '#',
            forall|j: int| k <= j < av.len() ==> (#[trigger] av[j]).0 != id@,
        decreases k,
    {
        assert(av[k - 1] == (doc.anchors@[k - 1].0@, doc.anchors@[k - 1].1 as nat));
        if doc.anchors[k - 1].0 == id {
            proof {
                lemma_anchor_map_last(av, k - 1, id@);
            }
            return Some(doc.anchors[k - 1].1);
        }
        k = k - 1;
    }
    proof {
        lemma_anchor_map_absent(av, id@);
    }
    None
}

/// The last binding of an id decides where it points.
proof fn lemma_anchor_map_last(a: Seq<(Seq<char>, nat)>, j: int, id: Seq<char>)
    requires
        0 <= j < a.len(),
        a[j].0 == id,
        forall|k: int| j < k < a.len() ==> (#[trigger] a[k]).0 != id,
    ensures
        anchor_map(a).contains_key(id),
        anchor_map(a)[id] == a[j].1,
    decreases a.len(),
{
    if j < a.len() - 1 {
        let p = a.drop_last();
        assert forall|k: int| j < k < p.len() implies (#[trigger] p[k]).0 != id by {
            assert(p[k] == a[k]);
        }
        lemma_anchor_map_last(p, j, id);
        assert(a.last() == a[a.len() - 1]);
    }
}

/// An id that no binding names is not in the map.
proof fn lemma_anchor_map_absent(a: Seq<(Seq<char>, nat)>, id: Seq<char>)
    requires
        forall|k: int| 0 <= k < a.len() ==> (#[trigger] a[k]).0 != id,
    ensures
        !anchor_map(a).contains_key(id),
    decreases a.len(),
{
    if a.len() > 0 {
        let p = a.drop_last();
        assert forall|k: int| 0 <= k < p.len() implies (#[trigger] p[k]).0 != id by {
            assert(p[k] == a[k]);
        }
        lemma_anchor_map_absent(p, id);
        assert(a.last() == a[a.len() - 1]);
    }
}

/// The heading of the grammar reference that the link target `target`
/// points at. The reference is parsed afresh on each call (see
/// `grammar_doc`).
pub fn grammar_link_target(target: &str) -> (r: Option<usize>)
    ensures
        match r {
            Some(i) => spec_link_target(spec_parse_doc(grammar_md_text()).1, target@) == Some(
                i as nat,
            ),
            None => spec_link_target(spec_parse_doc(grammar_md_text()).1, target@) is None,
        },
{
    let doc = grammar_doc();
    doc_link_target(&doc, target)
}

/// An entry of the table of contents.
#[derive(Debug, Clone, PartialEq, Eq)]
pub struct TocEntry {
    pub level: u8,
    pub idx: usize,
    pub text: String,
}

/// The mathematical content of a `TocEntry`.
pub struct TocEntryV {
    pub level: u8,
    pub idx: nat,
    pub text: Seq<char>,
}

impl View for TocEntry {
    type V = TocEntryV;

    open spec fn view(&self) -> TocEntryV {
        TocEntryV { level: self.level, idx: self.idx as nat, text: self.text@ }
    }
}

/// The table of contents of `blocks`: one entry per heading, in order, with
/// the heading's level, index and table-of-contents text.
pub open spec fn toc_of(blocks: Seq<BlockV>) -> Seq<TocEntryV>
    decreases blocks.len(),
{
    if blocks.len() == 0 {
        Seq::empty()
    } else {
        let prev = toc_of(blocks.drop_last());
        match blocks.last() {
            BlockV::Heading { level, idx, spans } => prev.push(
                TocEntryV { level, idx, text: crate::help::spec_toc_text(spans) },
            ),
            _ => prev,
        }
    }
}

/// The table of contents of the blocks `blocks`.
pub fn toc_entries(blocks: &Vec<Block>) -> (toc: Vec<TocEntry>)
    ensures
        toc@.map_values(|e: TocEntry| e@) == toc_of(blocks_view(blocks@)),
{
    let ghost bv = blocks_view(blocks@);
    let mut toc: Vec<TocEntry> = Vec::new();
    let mut i: usize = 0;
    assert(bv.take(0) =~= Seq::<BlockV>::empty());
    assert(toc@.map_values(|e: TocEntry| e@) =~= Seq::<TocEntryV>::empty());
    while i < blocks.len()
        invariant
            0 <= i <= blocks.len(),
            bv == blocks_view(blocks@),
            toc@.map_values(|e: TocEntry| e@) == toc_of(bv.take(i as int)),
        decreases blocks.len() - i,
    {
        assert(bv.take(i + 1).drop_last() =~= bv.take(i as int));
        assert(bv.take(i + 1).last() == blocks@[i as int]@);
        match &blocks[i] {
            Block::Heading { level, idx, spans } => {
                let text = crate::help::toc_text(spans.as_slice());
                let entry = TocEntry { level: *level, idx: *idx, text };
                let ghost before = toc@.map_values(|e: TocEntry| e@);
                toc.push(entry);
                assert(toc@.map_values(|e: TocEntry| e@) =~= before.push(entry@));
            },
            _ => {},
        }
        i = i + 1;
    }
    assert(bv.take(blocks.len() as int) =~= bv);
    toc
}

/// The table of contents of the grammar reference, parsed afresh on each
/// call (see `grammar_doc`).
pub fn grammar_toc() -> (toc: Vec<TocEntry>)
    ensures
        toc@.map_values(|e: TocEntry| e@) == toc_of(spec_parse_doc(grammar_md_text()).0),
{
    let blocks = grammar_blocks();
    toc_entries(&blocks)
}


/// Text inside emphasis is italic and text outside it is not: in an open
/// block, outside a code block, a text right after the start of an emphasis
/// becomes a span of that (decoded) text that is italic, with the bold and
/// link of the surrounding text; the end of the emphasis brings the
/// emphasis depth back to what it was; and a text with no emphasis open is
/// not italic.
pub proof fn law_emphasis_is_italic(st: BuildState, t: Seq<char>)
    requires
        st.code is None,
        st.stack.len() > 0,
    ensures
        ({
            let s2 = step(step(st, MdEventV::StartEmphasis), MdEventV::Text(t));
            &&& s2.stack.len() == st.stack.len()
            &&& ctx_spans(s2.stack.last()) == ctx_spans(st.stack.last()).push(
                SpanV { text: decode(t), bold: st.bold > 0, italic: true, code: false, link_target: st.link },
            )
            &&& step(s2, MdEventV::EndEmphasis).italic == st.italic
        }),
        st.italic == 0 ==> ctx_spans(step(st, MdEventV::Text(t)).stack.last()) == ctx_spans(st.stack.last()).push(
            SpanV { text: decode(t), bold: st.bold > 0, italic: false, code: false, link_target: st.link },
        ),
{
    let s1 = step(st, MdEventV::StartEmphasis);
    assert(s1.stack == st.stack && s1.italic == st.italic + 1 && s1.code is None);
    let top = st.stack.last();
    let span = SpanV { text: decode(t), bold: st.bold > 0, italic: true, code: false, link_target: st.link };
    let s2 = step(s1, MdEventV::Text(t));
    assert(s2.stack == st.stack.update(st.stack.len() - 1, ctx_with_spans(top, ctx_spans(top).push(span))));
    assert(ctx_spans(ctx_with_spans(top, ctx_spans(top).push(span))) == ctx_spans(top).push(span));
    let plain = SpanV { text: decode(t), bold: st.bold > 0, italic: false, code: false, link_target: st.link };
    assert(ctx_spans(ctx_with_spans(top, ctx_spans(top).push(plain))) == ctx_spans(top).push(plain));
}


/// Text inside strong emphasis is bold and text outside it is not: in an
/// open block, outside a code block, a text right after the start of strong
/// emphasis becomes a bold span of that (decoded) text, with the italic and
/// link of the surrounding text; its end brings the depth back.
pub proof fn law_strong_is_bold(st: BuildState, t: Seq<char>)
    requires
        st.code is None,
        st.stack.len() > 0,
    ensures
        ({
            let s2 = step(step(st, MdEventV::StartStrong), MdEventV::Text(t));
            &&& s2.stack.len() == st.stack.len()
            &&& ctx_spans(s2.stack.last()) == ctx_spans(st.stack.last()).push(
                SpanV { text: decode(t), bold: true, italic: st.italic > 0, code: false, link_target: st.link },
            )
            &&& step(s2, MdEventV::EndStrong).bold == st.bold
        }),
        st.bold == 0 ==> ctx_spans(step(st, MdEventV::Text(t)).stack.last()) == ctx_spans(st.stack.last()).push(
            SpanV { text: decode(t), bold: false, italic: st.italic > 0, code: false, link_target: st.link },
        ),
{
    let s1 = step(st, MdEventV::StartStrong);
    assert(s1.stack == st.stack && s1.bold == st.bold + 1 && s1.code is None);
    let top = st.stack.last();
    let span = SpanV { text: decode(t), bold: true, italic: st.italic > 0, code: false, link_target: st.link };
    let s2 = step(s1, MdEventV::Text(t));
    assert(s2.stack == st.stack.update(st.stack.len() - 1, ctx_with_spans(top, ctx_spans(top).push(span))));
    assert(ctx_spans(ctx_with_spans(top, ctx_spans(top).push(span))) == ctx_spans(top).push(span));
    let plain = SpanV { text: decode(t), bold: false, italic: st.italic > 0, code: false, link_target: st.link };
    assert(ctx_spans(ctx_with_spans(top, ctx_spans(top).push(plain))) == ctx_spans(top).push(plain));
}

} // verus!
