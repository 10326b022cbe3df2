//! What holds of the library as a whole: properties that relate several of
//! its functions, or that hold of every input and every state.
use vstd::prelude::*;
use vstd::utf8::valid_utf8;
use crate::entities::decode;
use crate::kinds::{Window, WindowState};
use crate::references::{still_referenced, RefSourceV};
use crate::editor::{
    carried_indent, total_overlap, insert_indents, indent_step, line_start, starts_from,
    spec_line_starts, min_off, sel_lo, sel_hi, spec_do_indent, spec_do_dedent, dedent_spans,
    remove_spans, leading_spaces, cursor_line, entered, enter_insertion, get_line_indent,
    line_starts_ok, overlap, lemma_total_overlap_bound, indent_ok,
};
use crate::text::{leading_ws, spec_is_whitespace, split_newlines, trailing_ws, trim};
use crate::html::{html_text, join_nonblank};
use crate::grammar::{run, step, BlockV, BuildState, CtxV, ctx_with_spans, push_span_spec, spec_parse_doc};
use crate::markdown::{markdown_events, MdEventV};
use crate::references::{apply_replacements, new_deps, pikchr_pattern, pikchr_reps, raw_pattern, raw_reps, three_passes};
use crate::text::{replace_all, starts_with};
use crate::guide::{common_editor_items, feature_guide_items, guide_view, GuideItemV};
use crate::help::HelpTopic;

verus! {

/// Text without `&` holds no character reference, so decoding leaves it as
/// it is.
pub proof fn law_decode_keeps_plain_text(s: Seq<char>)
    requires
        forall|i: int| 0 <= i < s.len() ==> s[i] != '&',
    ensures
        decode(s) == s,
    decreases s.len(),
{
    if s.len() > 0 {
        let r = s.drop_first();
        assert forall|i: int| 0 <= i < r.len() implies r[i] != '&' by {
            assert(r[i] == s[i + 1]);
        }
        law_decode_keeps_plain_text(r);
        assert(seq![s[0]] + r =~= s);
    }
}

/// Toggling the same utility window twice gives back the state it started
/// from.
pub proof fn law_toggle_twice_restores(s: WindowState, w: Window)
    ensures
        s.toggled(w).toggled(w) == s,
{
}

/// Cleaning the dependencies only removes: every dependency left was there
/// before, and every one whose source is still referred to stays.
pub proof fn law_cleaning_only_removes(sources: Seq<RefSourceV>, deps: Set<(u64, u64)>)
    ensures
        deps.filter(|e: (u64, u64)| still_referenced(sources, e)).subset_of(deps),
        forall|e: (u64, u64)|
            deps.contains(e) && still_referenced(sources, e) ==> deps.filter(
                |x: (u64, u64)| still_referenced(sources, x),
            ).contains(e),
{
}

/// Removing text never moves a position forward: the removed bytes before
/// it are never negative.
pub proof fn law_removal_never_moves_forward(index: int, removals: Seq<(usize, usize)>)
    ensures
        total_overlap(index, removals) >= 0,
    decreases removals.len(),
{
    if removals.len() > 0 {
        law_removal_never_moves_forward(index, removals.drop_last());
    }
}

/// Position `i` lies in one of the removed spans `rs`.
pub open spec fn in_removal(rs: Seq<(usize, usize)>, i: int) -> bool {
    exists|k: int| 0 <= k < rs.len() && (#[trigger] rs[k]).0 <= i < rs[k].0 + rs[k].1
}

/// How many positions before `n` lie in a removed span.
pub open spec fn removed_before(rs: Seq<(usize, usize)>, n: int) -> int
    decreases n,
{
    if n <= 0 {
        0
    } else {
        removed_before(rs, n - 1) + if in_removal(rs, n - 1) {
            1int
        } else {
            0int
        }
    }
}

/// The spans come in order of position and none reaches into the next.
pub open spec fn spans_in_order(rs: Seq<(usize, usize)>) -> bool {
    forall|i: int, j: int| 0 <= i < j < rs.len() ==> (#[trigger] rs[i]).0 + rs[i].1 <= (#[trigger] rs[j]).0
}

/// No position lies in a span of no spans.
proof fn lemma_removed_none(rs: Seq<(usize, usize)>, n: int)
    requires
        rs.len() == 0,
    ensures
        removed_before(rs, n) == 0,
    decreases n,
{
    if n > 0 {
        lemma_removed_none(rs, n - 1);
    }
}

/// The last span adds exactly its own positions before `n`.
proof fn lemma_removed_last(rs: Seq<(usize, usize)>, n: int)
    requires
        rs.len() > 0,
        spans_in_order(rs),
        n >= 0,
    ensures
        removed_before(rs, n) == removed_before(rs.drop_last(), n) + overlap(n, rs.last()),
    decreases n,
{
    let pre = rs.drop_last();
    let r = rs.last();
    if n > 0 {
        lemma_removed_last(rs, n - 1);
        let i = n - 1;
        if in_removal(pre, i) {
            let k = choose|k: int| 0 <= k < pre.len() && (#[trigger] pre[k]).0 <= i < pre[k].0 + pre[k].1;
            assert(pre[k] == rs[k]);
            assert(rs[k].0 + rs[k].1 <= rs[rs.len() - 1].0);
            assert(in_removal(rs, i));
        }
        if r.0 <= i < r.0 + r.1 {
            assert(rs[rs.len() - 1] == r);
            assert(in_removal(rs, i));
        }
        if in_removal(rs, i) {
            let k = choose|k: int| 0 <= k < rs.len() && (#[trigger] rs[k]).0 <= i < rs[k].0 + rs[k].1;
            if k < rs.len() - 1 {
                assert(pre[k] == rs[k]);
                assert(in_removal(pre, i));
            }
        }
    }
}

/// The overlap of spans in order before `n` is the number of removed
/// positions before `n`.
proof fn lemma_overlap_counts(rs: Seq<(usize, usize)>, n: int)
    requires
        spans_in_order(rs),
        n >= 0,
    ensures
        total_overlap(n, rs) == removed_before(rs, n),
    decreases rs.len(),
{
    if rs.len() == 0 {
        lemma_removed_none(rs, n);
    } else {
        let pre = rs.drop_last();
        assert forall|i: int, j: int| 0 <= i < j < pre.len() implies (#[trigger] pre[i]).0 + pre[i].1
            <= (#[trigger] pre[j]).0 by {
            assert(pre[i] == rs[i] && pre[j] == rs[j]);
        }
        lemma_overlap_counts(pre, n);
        lemma_removed_last(rs, n);
    }
}

/// After removing spans that come in order and do not overlap, a position
/// moves back to the number of positions before it that survived: the
/// adjusted position is never negative, and it counts exactly the
/// characters before it that were kept.
pub proof fn law_adjusted_counts_survivors(index: int, removals: Seq<(usize, usize)>)
    requires
        index >= 0,
        spans_in_order(removals),
    ensures
        0 <= total_overlap(index, removals) <= index,
        total_overlap(index, removals) == removed_before(removals, index),
{
    lemma_total_overlap_bound(index, removals);
    law_removal_never_moves_forward(index, removals);
    lemma_overlap_counts(removals, index);
}

/// The last piece of a text split at its line breaks holds no line break.
proof fn lemma_last_piece_no_break(s: Seq<char>)
    ensures
        forall|i: int|
            0 <= i < split_newlines(s).last().len() ==> #[trigger] split_newlines(s).last()[i]
                != '\n',
    decreases s.len(),
{
    if s.len() > 0 {
        lemma_last_piece_no_break(s.drop_last());
        crate::text::lemma_split_newlines_len(s.drop_last());
    }
}

/// The first `leading_ws(s)` characters of `s` are whitespace.
proof fn lemma_leading_ws_all(s: Seq<char>)
    ensures
        leading_ws(s) <= s.len(),
        forall|i: int| 0 <= i < leading_ws(s) ==> spec_is_whitespace(#[trigger] s[i]),
    decreases s.len(),
{
    if s.len() > 0 && spec_is_whitespace(s[0]) {
        lemma_leading_ws_all(s.drop_first());
        assert forall|i: int| 0 <= i < leading_ws(s) implies spec_is_whitespace(#[trigger] s[i]) by {
            if i > 0 {
                assert(s[i] == s.drop_first()[i - 1]);
            }
        }
    }
}

/// What Enter carries over to the new line is whitespace only, and never a
/// line break: the new line starts with the old line's indentation and
/// nothing else.
pub proof fn law_enter_carries_only_indentation(b: Seq<u8>, cursor: int)
    ensures
        forall|i: int|
            0 <= i < carried_indent(b, cursor).len() ==> spec_is_whitespace(
                #[trigger] carried_indent(b, cursor)[i],
            ) && carried_indent(b, cursor)[i] != '\n',
{
    let line = split_newlines(vstd::utf8::decode_utf8(b.take(cursor))).last();
    lemma_last_piece_no_break(vstd::utf8::decode_utf8(b.take(cursor)));
    lemma_leading_ws_all(line);
    assert forall|i: int| 0 <= i < carried_indent(b, cursor).len() implies spec_is_whitespace(
        #[trigger] carried_indent(b, cursor)[i],
    ) && carried_indent(b, cursor)[i] != '\n' by {
        assert(carried_indent(b, cursor)[i] == line[i]);
    }
}

/// With the editors' own indentation function, Enter inserts a line break
/// followed by exactly the indentation of the line the cursor was on.
pub proof fn law_enter_with_line_indent(b: Seq<u8>, cursor: int, line: &str, indent: String)
    requires
        line@ == cursor_line(b, cursor),
        call_ensures(get_line_indent, (line,), indent),
    ensures
        indent@ == carried_indent(b, cursor),
        entered(b, cursor, indent@) == b.take(cursor) + enter_insertion(b, cursor) + b.skip(cursor),
{
    assert(entered(b, cursor, indent@) =~= b.take(cursor) + enter_insertion(b, cursor) + b.skip(cursor));
}

/// Every line of `t` is non-blank and trimmed: `t` neither starts nor ends
/// with whitespace, and the characters on both sides of each line break are
/// not whitespace (so no line is empty either).
pub open spec fn lines_trimmed(t: Seq<char>) -> bool {
    &&& t.len() > 0 ==> !spec_is_whitespace(t[0]) && !spec_is_whitespace(t.last())
    &&& forall|i: int|
        0 <= i < t.len() && #[trigger] t[i] == '\n' ==> 0 < i < t.len() - 1 && !spec_is_whitespace(
            t[i - 1],
        ) && !spec_is_whitespace(t[i + 1])
}

/// `leading_ws` stops at a character that is not whitespace.
proof fn lemma_leading_ws_stop(s: Seq<char>)
    ensures
        leading_ws(s) <= s.len(),
        leading_ws(s) < s.len() ==> !spec_is_whitespace(s[leading_ws(s) as int]),
    decreases s.len(),
{
    if s.len() > 0 && spec_is_whitespace(s[0]) {
        lemma_leading_ws_stop(s.drop_first());
    }
}

/// `trailing_ws` stops at a character that is not whitespace.
proof fn lemma_trailing_ws_stop(s: Seq<char>)
    ensures
        trailing_ws(s) <= s.len(),
        trailing_ws(s) < s.len() ==> !spec_is_whitespace(s[s.len() - trailing_ws(s) - 1]),
    decreases s.len(),
{
    if s.len() > 0 && spec_is_whitespace(s.last()) {
        lemma_trailing_ws_stop(s.drop_last());
        if trailing_ws(s) < s.len() {
            assert(s.drop_last()[s.len() - trailing_ws(s) - 1] == s[s.len() - trailing_ws(s) - 1]);
        }
    }
}

/// A trimmed text is a piece of the untrimmed one that neither starts nor ends
/// with whitespace.
proof fn lemma_trim_ends(p: Seq<char>)
    ensures
        trim(p).len() > 0 ==> !spec_is_whitespace(trim(p)[0]) && !spec_is_whitespace(
            trim(p).last(),
        ),
        forall|i: int|
            0 <= i < trim(p).len() ==> #[trigger] trim(p)[i] == p[leading_ws(p) + i],
        leading_ws(p) + trim(p).len() <= p.len(),
{
    lemma_leading_ws_stop(p);
    let q = p.skip(leading_ws(p) as int);
    lemma_trailing_ws_stop(q);
    if trim(p).len() > 0 {
        assert(trim(p)[0] == q[0]);
    }
}

/// The pieces of a text split at its line breaks hold no line break.
proof fn lemma_pieces_no_break(s: Seq<char>)
    ensures
        forall|k: int, i: int|
            0 <= k < split_newlines(s).len() && 0 <= i < split_newlines(s)[k].len() ==> #[trigger] split_newlines(s)[k][i] != '\n',
    decreases s.len(),
{
    if s.len() > 0 {
        lemma_pieces_no_break(s.drop_last());
        crate::text::lemma_split_newlines_len(s.drop_last());
        let prev = split_newlines(s.drop_last());
        assert forall|k: int, i: int|
            0 <= k < split_newlines(s).len() && 0 <= i < split_newlines(s)[k].len() implies #[trigger] split_newlines(s)[k][i] != '\n' by {
            if s.last() == '\n' {
                if k < prev.len() {
                    assert(split_newlines(s)[k] == prev[k]);
                }
            } else {
                if k < prev.len() - 1 {
                    assert(split_newlines(s)[k] == prev[k]);
                } else {
                    assert(split_newlines(s)[k] == prev.last().push(s.last()));
                    if i < prev.last().len() {
                        assert(prev[prev.len() - 1][i] == prev.last()[i]);
                    }
                }
            }
        }
    }
}

/// Joining trimmed pieces that hold no line break gives trimmed, non-blank
/// lines.
proof fn lemma_join_trimmed(pieces: Seq<Seq<char>>)
    requires
        forall|k: int, i: int|
            0 <= k < pieces.len() && 0 <= i < pieces[k].len() ==> #[trigger] pieces[k][i] != '\n',
    ensures
        lines_trimmed(join_nonblank(pieces)),
    decreases pieces.len(),
{
    if pieces.len() > 0 {
        let pre = pieces.drop_last();
        assert forall|k: int, i: int|
            0 <= k < pre.len() && 0 <= i < pre[k].len() implies #[trigger] pre[k][i] != '\n' by {
            assert(pre[k] == pieces[k]);
        }
        lemma_join_trimmed(pre);
        let prev = join_nonblank(pre);
        let p = pieces.last();
        let t = trim(p);
        lemma_trim_ends(p);
        assert forall|i: int| 0 <= i < t.len() implies #[trigger] t[i] != '\n' by {
            assert(t[i] == p[leading_ws(p) + i]);
            assert(pieces[pieces.len() - 1][leading_ws(p) + i] != '\n');
        }
        if t.len() > 0 && prev.len() > 0 {
            let out = prev + seq!['\n'] + t;
            assert(out == join_nonblank(pieces));
            assert forall|i: int| 0 <= i < out.len() && #[trigger] out[i] == '\n' implies 0 < i
                < out.len() - 1 && !spec_is_whitespace(out[i - 1]) && !spec_is_whitespace(
                out[i + 1],
            ) by {
                if i < prev.len() {
                    assert(out[i] == prev[i]);
                    if i + 1 < prev.len() {
                        assert(out[i + 1] == prev[i + 1]);
                    }
                    assert(out[i - 1] == prev[i - 1]);
                } else if i == prev.len() {
                    assert(out[i - 1] == prev.last());
                    assert(out[i + 1] == t[0]);
                } else {
                    assert(out[i] == t[i - prev.len() - 1]);
                }
            }
            assert(out[0] == prev[0]);
            assert(out.last() == t.last());
        }
    }
}

/// What `html_to_text` gives is a run of non-blank, trimmed lines.
pub proof fn law_html_text_lines_are_trimmed(s: Seq<char>)
    ensures
        lines_trimmed(html_text(s)),
{
    let d = decode(crate::html::strip_tags(s, Seq::empty()));
    lemma_pieces_no_break(d);
    lemma_join_trimmed(split_newlines(d));
}

/// A heading block's index is below `n`; other blocks have none.
pub open spec fn heading_idx_below(b: BlockV, n: nat) -> bool {
    match b {
        BlockV::Heading { idx, .. } => idx < n,
        _ => true,
    }
}

/// An open heading's index is below `n`; other open blocks have none.
pub open spec fn ctx_idx_below(c: CtxV, n: nat) -> bool {
    match c {
        CtxV::Heading(_, i, _) => i < n,
        _ => true,
    }
}

/// Every heading index in `st` (of a block, an anchor or an open heading)
/// is one already handed out: below the number of headings started.
pub open spec fn indices_assigned(st: BuildState) -> bool {
    &&& forall|i: int| 0 <= i < st.blocks.len() ==> heading_idx_below(#[trigger] st.blocks[i], st.headings)
    &&& forall|j: int| 0 <= j < st.anchors.len() ==> (#[trigger] st.anchors[j]).1 < st.headings
    &&& forall|k: int| 0 <= k < st.stack.len() ==> ctx_idx_below(#[trigger] st.stack[k], st.headings)
}

/// Adding spans to the innermost open block keeps the open headings'
/// indices.
proof fn lemma_push_span_keeps(stack: Seq<CtxV>, text: Seq<char>, bold: bool, italic: bool, code: bool, link: Option<Seq<char>>, n: nat)
    requires
        forall|k: int| 0 <= k < stack.len() ==> ctx_idx_below(#[trigger] stack[k], n),
    ensures
        forall|k: int| 0 <= k < push_span_spec(stack, text, bold, italic, code, link).len() ==> ctx_idx_below(#[trigger] push_span_spec(stack, text, bold, italic, code, link)[k], n),
{
    if stack.len() > 0 {
        let r = push_span_spec(stack, text, bold, italic, code, link);
        assert forall|k: int| 0 <= k < r.len() implies ctx_idx_below(#[trigger] r[k], n) by {
            if k < stack.len() - 1 {
                assert(r[k] == stack[k]);
            } else {
                assert(ctx_idx_below(stack[stack.len() - 1], n));
            }
        }
    }
}

/// One parser event keeps every heading index one that was handed out.
#[verifier::rlimit(40)]
proof fn lemma_step_indices(st: BuildState, e: MdEventV)
    requires
        indices_assigned(st),
    ensures
        indices_assigned(step(st, e)),
        step(st, e).headings >= st.headings,
{
    let n = step(st, e).headings;
    let r = step(st, e);
    assert forall|i: int| 0 <= i < st.blocks.len() implies heading_idx_below(#[trigger] st.blocks[i], n) by {
        assert(heading_idx_below(st.blocks[i], st.headings));
    }
    match e {
        MdEventV::StartHeading(l) => {
            assert forall|j: int| 0 <= j < r.anchors.len() implies (#[trigger] r.anchors[j]).1 < n by {
                if j >= st.anchors.len() {
                    assert(r.anchors[j] == crate::grammar::bindings(st.pending, st.headings)[j - st.anchors.len()]);
                }
            }
            assert forall|k: int| 0 <= k < r.stack.len() implies ctx_idx_below(#[trigger] r.stack[k], n) by {
                if k < st.stack.len() {
                    assert(r.stack[k] == st.stack[k]);
                    assert(ctx_idx_below(st.stack[k], st.headings));
                }
            }
        },
        MdEventV::EndParagraph | MdEventV::EndHeading | MdEventV::EndItem | MdEventV::EndCell => {
            if st.stack.len() > 0 {
                assert(ctx_idx_below(st.stack[st.stack.len() - 1], st.headings));
                assert forall|k: int| 0 <= k < r.stack.len() implies ctx_idx_below(#[trigger] r.stack[k], n) by {
                    assert(r.stack[k] == st.stack[k]);
                }
                assert forall|i: int| 0 <= i < r.blocks.len() implies heading_idx_below(#[trigger] r.blocks[i], n) by {
                    if i < st.blocks.len() {
                        assert(r.blocks[i] == st.blocks[i]);
                    }
                }
            }
        },
        MdEventV::Text(t) => {
            lemma_push_span_keeps(st.stack, t, st.bold > 0, st.italic > 0, false, st.link, st.headings);
        },
        MdEventV::Code(t) => {
            lemma_push_span_keeps(st.stack, t, st.bold > 0, st.italic > 0, true, st.link, st.headings);
        },
        MdEventV::InlineHtml(t) => {
            let x = crate::html::html_text(t);
            lemma_push_span_keeps(st.stack, x, st.bold > 0, st.italic > 0, false, st.link, st.headings);
        },
        MdEventV::Break => {
            if st.code is None && st.stack.len() > 0 {
                let top = st.stack.last();
                assert(ctx_idx_below(st.stack[st.stack.len() - 1], st.headings));
                assert forall|k: int| 0 <= k < r.stack.len() implies ctx_idx_below(#[trigger] r.stack[k], n) by {
                    if k < st.stack.len() - 1 {
                        assert(r.stack[k] == st.stack[k]);
                    }
                }
            }
        },
        _ => {
            assert forall|i: int| 0 <= i < r.blocks.len() implies heading_idx_below(#[trigger] r.blocks[i], n) by {
                if i < st.blocks.len() {
                    assert(r.blocks[i] == st.blocks[i]);
                }
            }
            assert forall|k: int| 0 <= k < r.stack.len() implies ctx_idx_below(#[trigger] r.stack[k], n) by {
                if k < st.stack.len() {
                    assert(r.stack[k] == st.stack[k]);
                    assert(ctx_idx_below(st.stack[k], st.headings));
                }
            }
        },
    }
}

/// Folding any events keeps every heading index one that was handed out.
pub proof fn law_run_indices_assigned(es: Seq<MdEventV>)
    ensures
        indices_assigned(run(es)),
    decreases es.len(),
{
    if es.len() > 0 {
        law_run_indices_assigned(es.drop_last());
        lemma_step_indices(run(es.drop_last()), es.last());
    }
}

/// In a parsed document, every heading's index and every anchor's target is
/// an index handed out to a heading: below the number of headings the
/// parser started.
pub proof fn law_doc_indices_assigned(src: Seq<char>)
    ensures
        ({
            let st = run(markdown_events(crate::grammar::spec_normalize_doc_tables(src)));
            &&& spec_parse_doc(src).0 == st.blocks
            &&& spec_parse_doc(src).1 == st.anchors
            &&& forall|i: int| 0 <= i < st.blocks.len() ==> heading_idx_below(#[trigger] st.blocks[i], st.headings)
            &&& forall|j: int| 0 <= j < st.anchors.len() ==> (#[trigger] st.anchors[j]).1 < st.headings
        }),
{
    law_run_indices_assigned(markdown_events(crate::grammar::spec_normalize_doc_tables(src)));
}

/// `s` never has the character `x` twice in a row.
pub open spec fn no_double(s: Seq<char>, x: char) -> bool {
    forall|i: int| 0 <= i < s.len() - 1 ==> !(#[trigger] s[i] == x && s[i + 1] == x)
}

/// A pattern that starts with `x` twice never occurs in a text without `x`
/// twice in a row, so replacing it changes nothing.
proof fn lemma_replace_absent(s: Seq<char>, p: Seq<char>, r: Seq<char>, x: char)
    requires
        no_double(s, x),
        p.len() >= 2,
        p[0] == x,
        p[1] == x,
    ensures
        replace_all(s, p, r) == s,
    decreases s.len(),
{
    if s.len() > 0 {
        if starts_with(s, p) {
            assert(s.take(p.len() as int)[0] == p[0]);
            assert(s.take(p.len() as int)[1] == p[1]);
            assert(false);
        }
        let t = s.drop_first();
        assert forall|i: int| 0 <= i < t.len() - 1 implies !(#[trigger] t[i] == x && t[i + 1] == x) by {
            assert(t[i] == s[i + 1] && t[i + 1] == s[i + 2]);
        }
        lemma_replace_absent(t, p, r, x);
        assert(seq![s[0]] + t =~= s);
    }
}

/// Every pattern of `reps` starts with `x` twice.
pub open spec fn patterns_start_with(reps: Seq<(Seq<char>, Seq<char>)>, x: char) -> bool {
    forall|k: int| 0 <= k < reps.len() ==> (#[trigger] reps[k]).0.len() >= 2 && reps[k].0[0] == x && reps[k].0[1] == x
}

/// Replacements whose patterns all start with `x` twice leave a text without
/// `x` twice in a row as it is.
proof fn lemma_apply_absent(s: Seq<char>, reps: Seq<(Seq<char>, Seq<char>)>, x: char)
    requires
        no_double(s, x),
        patterns_start_with(reps, x),
    ensures
        apply_replacements(s, reps) == s,
    decreases reps.len(),
{
    if reps.len() > 0 {
        let pre = reps.drop_last();
        assert forall|k: int| 0 <= k < pre.len() implies (#[trigger] pre[k]).0.len() >= 2 && pre[k].0[0] == x && pre[k].0[1] == x by {
            assert(pre[k] == reps[k]);
        }
        lemma_apply_absent(s, pre, x);
        assert(reps[reps.len() - 1] == reps.last());
        lemma_replace_absent(s, reps.last().0, reps.last().1, x);
    }
}

/// The raw-source patterns start with `!!`, the generated-Pikchr ones with
/// `$$`.
proof fn lemma_reps_patterns(sources: Seq<RefSourceV>, id: u64)
    ensures
        patterns_start_with(raw_reps(sources, id), '!'),
        patterns_start_with(pikchr_reps(sources, id), '$'),
    decreases sources.len(),
{
    if sources.len() > 0 {
        lemma_reps_patterns(sources.drop_last(), id);
        let s = sources.last();
        let rp = crate::references::raw_pattern(s.name);
        let pp = crate::references::pikchr_pattern(s.name);
        assert(rp[0] == '!' && rp[1] == '!');
        assert(pp[0] == '$' && pp[1] == '$');
        let a = raw_reps(sources, id);
        let pa = raw_reps(sources.drop_last(), id);
        assert forall|k: int| 0 <= k < a.len() implies (#[trigger] a[k]).0.len() >= 2 && a[k].0[0] == '!' && a[k].0[1] == '!' by {
            if k < pa.len() {
                assert(a[k] == pa[k]);
            }
        }
        let b = pikchr_reps(sources, id);
        let pb = pikchr_reps(sources.drop_last(), id);
        assert forall|k: int| 0 <= k < b.len() implies (#[trigger] b[k]).0.len() >= 2 && b[k].0[0] == '$' && b[k].0[1] == '$' by {
            if k < pb.len() {
                assert(b[k] == pb[k]);
            }
        }
    }
}

/// A text with no `!!` and no `$$` refers to no window, so expanding its
/// references gives it back unchanged.
pub proof fn law_text_without_references_unchanged(sources: Seq<RefSourceV>, id: u64, content: Seq<char>)
    requires
        no_double(content, '!'),
        no_double(content, '$'),
    ensures
        three_passes(three_passes(content, pikchr_reps(sources, id)), raw_reps(sources, id)) == content,
{
    lemma_reps_patterns(sources, id);
    let pr = pikchr_reps(sources, id);
    let rr = raw_reps(sources, id);
    lemma_apply_absent(content, pr, '$');
    lemma_apply_absent(content, rr, '!');
}

/// The offsets `st` increase strictly.
pub open spec fn increasing(st: Seq<int>) -> bool {
    forall|i: int, j: int| 0 <= i < j < st.len() ==> #[trigger] st[i] < #[trigger] st[j]
}

/// How many offsets of `st` are at most `q`.
pub open spec fn count_le(st: Seq<int>, q: int) -> nat
    decreases st.len(),
{
    if st.len() == 0 {
        0
    } else {
        count_le(st.drop_last(), q) + if st.last() <= q {
            1nat
        } else {
            0nat
        }
    }
}

/// In increasing offsets, those up to `q` are the first `i` when `q` lies
/// between the `i`-th and the next.
proof fn lemma_count_le_at(st: Seq<int>, i: int, q: int)
    requires
        increasing(st),
        0 <= i <= st.len(),
        i == 0 || st[i - 1] <= q,
        i == st.len() || q < st[i],
    ensures
        count_le(st, q) == i,
    decreases st.len(),
{
    if st.len() > 0 {
        let pre = st.drop_last();
        assert forall|a: int, c: int| 0 <= a < c < pre.len() implies #[trigger] pre[a] < #[trigger] pre[c] by {
            assert(pre[a] == st[a] && pre[c] == st[c]);
        }
        if i == st.len() {
            if i - 1 > 0 {
                assert(pre[i - 2] == st[i - 2]);
                assert(st[i - 2] < st[i - 1]);
            }
            lemma_count_le_at(pre, i - 1, q);
        } else {
            if i > 0 {
                assert(pre[i - 1] == st[i - 1]);
            }
            if i < pre.len() {
                assert(pre[i] == st[i]);
            }
            assert(st.last() == st[st.len() - 1]);
            if i < st.len() - 1 {
                assert(st[i] < st[st.len() - 1]);
            }
            lemma_count_le_at(pre, i, q);
        }
    }
}

/// Where the bytes of `b` and the inserted spaces lie in
/// `insert_indents(b, st)`: the inserted pair for the `i`-th offset starts
/// at `st[i] + 2 i`, byte `q` of `b` moves to `q + 2 count_le(st, q)`, and
/// every other byte is an inserted space.
#[verifier::rlimit(40)]
#[verifier::spinoff_prover]
proof fn lemma_insert_layout(b: Seq<u8>, st: Seq<int>)
    requires
        increasing(st),
        forall|i: int| 0 <= i < st.len() ==> 0 <= #[trigger] st[i] <= b.len(),
    ensures
        insert_indents(b, st).len() == b.len() + 2 * st.len(),
        forall|i: int|
            0 <= i < st.len() ==> insert_indents(b, st)[#[trigger] st[i] + 2 * i] == 32u8
                && insert_indents(b, st)[st[i] + 2 * i + 1] == 32u8,
        forall|q: int|
            0 <= q < b.len() ==> insert_indents(b, st)[q + 2 * #[trigger] count_le(st, q)] == b[q],
        forall|j: int|
            0 <= j < insert_indents(b, st).len() ==> #[trigger] insert_indents(b, st)[j] == 32u8
                || exists|q: int| 0 <= q < b.len() && j == q + 2 * #[trigger] count_le(st, q),
    decreases st.len(),
{
    let b2 = insert_indents(b, st);
    if st.len() == 0 {
        assert forall|q: int| 0 <= q < b.len() implies b2[q + 2 * #[trigger] count_le(st, q)] == b[q] by {
        }
        assert forall|j: int| 0 <= j < b2.len() implies #[trigger] b2[j] == 32u8
            || exists|q: int| 0 <= q < b.len() && j == q + 2 * #[trigger] count_le(st, q) by {
            assert(count_le(st, j) == 0);
        }
    } else {
        let n = st.len() as int;
        let l = st.last();
        let pre = st.drop_last();
        let bl = b.take(l);
        assert(st[n - 1] == l);
        assert forall|a: int, c: int| 0 <= a < c < pre.len() implies #[trigger] pre[a] < #[trigger] pre[c] by {
            assert(pre[a] == st[a] && pre[c] == st[c]);
        }
        assert forall|i: int| 0 <= i < pre.len() implies 0 <= #[trigger] pre[i] <= bl.len() by {
            assert(pre[i] == st[i]);
            assert(st[i] < st[n - 1]);
        }
        lemma_insert_layout(bl, pre);
        let x = insert_indents(bl, pre);
        assert(b2 == x + indent_step() + b.skip(l));
        assert(x.len() == l + 2 * (n - 1));
        assert forall|i: int| 0 <= i < n implies b2[#[trigger] st[i] + 2 * i] == 32u8 && b2[st[i] + 2 * i + 1] == 32u8 by {
            if i < n - 1 {
                assert(pre[i] == st[i]);
                assert(st[i] < st[n - 1]);
                assert(b2[st[i] + 2 * i] == x[pre[i] + 2 * i]);
                assert(b2[st[i] + 2 * i + 1] == x[pre[i] + 2 * i + 1]);
            }
        }
        assert forall|q: int| 0 <= q < b.len() implies b2[q + 2 * #[trigger] count_le(st, q)] == b[q] by {
            if q < l {
                assert(count_le(st, q) == count_le(pre, q));
                assert(count_le(pre, q) <= pre.len()) by {
                    lemma_count_le_bound(pre, q);
                }
                assert(bl[q] == b[q]);
                assert(b2[q + 2 * count_le(st, q)] == x[q + 2 * count_le(pre, q)]);
            } else {
                lemma_count_le_at(st, n, q);
                assert(b2[q + 2 * count_le(st, q)] == b.skip(l)[q - l]);
            }
        }
        assert forall|j: int| 0 <= j < b2.len() implies #[trigger] b2[j] == 32u8
            || exists|q: int| 0 <= q < b.len() && j == q + 2 * #[trigger] count_le(st, q) by {
            if j < x.len() {
                assert(b2[j] == x[j]);
                if x[j] != 32u8 {
                    let q = choose|q: int| 0 <= q < bl.len() && j == q + 2 * #[trigger] count_le(pre, q);
                    assert(count_le(st, q) == count_le(pre, q));
                    assert(0 <= q < b.len() && j == q + 2 * count_le(st, q));
                }
            } else if j >= x.len() + 2 {
                let q = j - 2 * n;
                lemma_count_le_at(st, n, q);
                assert(0 <= q < b.len() && j == q + 2 * count_le(st, q));
            }
        }
    }
}

/// The start of the line holding `i` is the `f` after which no line break
/// comes before `i`.
proof fn lemma_line_start_unique(b: Seq<u8>, f: int, i: int)
    requires
        0 <= f <= i <= b.len(),
        f == 0 || b[f - 1] == 10u8,
        forall|j: int| f <= j < i ==> #[trigger] b[j] != 10u8,
    ensures
        line_start(b, i) == f,
    decreases i - f,
{
    if i > f {
        lemma_line_start_unique(b, f, i - 1);
    }
}

/// No line break lies between the start of the line holding `i` and `i`.
proof fn lemma_line_start_no_break(b: Seq<u8>, i: int)
    requires
        0 <= i <= b.len(),
    ensures
        0 <= line_start(b, i) <= i,
        line_start(b, i) == 0 || b[line_start(b, i) - 1] == 10u8,
        forall|j: int| line_start(b, i) <= j < i ==> #[trigger] b[j] != 10u8,
    decreases i,
{
    if i > 0 && b[i - 1] != 10u8 {
        lemma_line_start_no_break(b, i - 1);
    }
}

/// The later line starts are exactly the offsets after `p` and up to `se`
/// that follow a line break and lie before `end`, in increasing order.
proof fn lemma_starts_from_members(b: Seq<u8>, p: int, se: int, end: int)
    requires
        0 <= p,
        se <= b.len(),
    ensures
        increasing(starts_from(b, p, se, end)),
        forall|x: int|
            #[trigger] starts_from(b, p, se, end).contains(x) <==> (p < x <= se && b[x - 1] == 10u8
                && x < end),
    decreases se - p,
{
    let sf = starts_from(b, p, se, end);
    if p >= se {
        assert forall|x: int| #[trigger] sf.contains(x) <==> (p < x <= se && b[x - 1] == 10u8 && x < end) by {
        }
    } else {
        lemma_starts_from_members(b, p + 1, se, end);
        let rest = starts_from(b, p + 1, se, end);
        if b[p] == 10u8 && p + 1 < end {
            assert(sf =~= seq![p + 1] + rest);
            assert forall|i: int, j: int| 0 <= i < j < sf.len() implies #[trigger] sf[i] < #[trigger] sf[j] by {
                assert(sf[j] == rest[j - 1]);
                assert(rest.contains(rest[j - 1]));
                if i > 0 {
                    assert(sf[i] == rest[i - 1]);
                }
            }
            assert forall|x: int| #[trigger] sf.contains(x) <==> (p < x <= se && b[x - 1] == 10u8 && x < end) by {
                assert(rest.contains(x) <==> (p + 1 < x <= se && b[x - 1] == 10u8 && x < end));
                if x == p + 1 {
                    assert(sf[0] == x);
                }
                if sf.contains(x) && x != p + 1 {
                    let k = choose|k: int| 0 <= k < sf.len() && sf[k] == x;
                    assert(k > 0);
                    assert(rest[k - 1] == x);
                    assert(rest.contains(x));
                }
                if p < x <= se && b[x - 1] == 10u8 && x < end && x != p + 1 {
                    assert(rest.contains(x));
                    let k = choose|k: int| 0 <= k < rest.len() && rest[k] == x;
                    assert(sf[k + 1] == x);
                }
            }
        } else {
            assert(sf == rest);
            assert forall|x: int| #[trigger] sf.contains(x) <==> (p < x <= se && b[x - 1] == 10u8 && x < end) by {
                assert(rest.contains(x) <==> (p + 1 < x <= se && b[x - 1] == 10u8 && x < end));
            }
        }
    }
}

/// The line starts of a selection `start..end` (with `start <= end`): the
/// first is the start of the line holding `start` (just after the last
/// line break before it, or 0); after it come, in increasing order, exactly
/// the offsets just past each line break from there up to the end of the
/// selection that lie before `end`. Where both ends of the selection fall
/// on character boundaries, the editors may collect them.
pub proof fn law_line_starts_listed(b: Seq<u8>, start: int, end: int)
    requires
        0 <= start <= end,
    ensures
        ({
            let ss = min_off(start, b.len() as int);
            let se = min_off(end, b.len() as int);
            let ls = spec_line_starts(b, start, end);
            &&& ls.len() >= 1
            &&& 0 <= ls[0] <= ss <= start
            &&& ls[0] == 0 || b[ls[0] - 1] == 10u8
            &&& forall|j: int| ls[0] <= j < ss ==> #[trigger] b[j] != 10u8
            &&& increasing(ls)
            &&& forall|x: int|
                #[trigger] ls.drop_first().contains(x) <==> (ls[0] < x <= se && b[x - 1] == 10u8 && x < end)
            &&& vstd::utf8::is_char_boundary(b, ss) && vstd::utf8::is_char_boundary(b, se) ==> line_starts_ok(b, start, end)
        }),
{
    let ss = min_off(start, b.len() as int);
    let se = min_off(end, b.len() as int);
    lemma_line_start_no_break(b, ss);
    let f = line_start(b, ss);
    lemma_starts_from_members(b, f, se, end);
    let rest = starts_from(b, f, se, end);
    let ls = spec_line_starts(b, start, end);
    assert(ls =~= seq![f] + rest);
    assert(ls.drop_first() =~= rest);
    assert forall|i: int, j: int| 0 <= i < j < ls.len() implies #[trigger] ls[i] < #[trigger] ls[j] by {
        assert(ls[j] == rest[j - 1]);
        assert(rest.contains(rest[j - 1]));
        if i > 0 {
            assert(ls[i] == rest[i - 1]);
        }
    }
}

/// Two increasing sequences with the same elements are equal.
proof fn lemma_increasing_eq(a: Seq<int>, c: Seq<int>)
    requires
        increasing(a),
        increasing(c),
        forall|x: int| a.contains(x) <==> c.contains(x),
    ensures
        a == c,
    decreases a.len() + c.len(),
{
    if a.len() == 0 {
        if c.len() > 0 {
            assert(c.contains(c[0]));
        }
        assert(a =~= c);
    } else if c.len() == 0 {
        assert(a.contains(a[0]));
    } else {
        assert(a.contains(a[0]));
        assert(c.contains(c[0]));
        let ka = choose|k: int| 0 <= k < a.len() && a[k] == c[0];
        let kc = choose|k: int| 0 <= k < c.len() && c[k] == a[0];
        if ka > 0 {
            assert(a[0] < a[ka]);
        }
        if kc > 0 {
            assert(c[0] < c[kc]);
        }
        assert(a[0] == c[0]);
        let a1 = a.drop_first();
        let c1 = c.drop_first();
        assert forall|i: int, j: int| 0 <= i < j < a1.len() implies #[trigger] a1[i] < #[trigger] a1[j] by {
            assert(a1[i] == a[i + 1] && a1[j] == a[j + 1]);
        }
        assert forall|i: int, j: int| 0 <= i < j < c1.len() implies #[trigger] c1[i] < #[trigger] c1[j] by {
            assert(c1[i] == c[i + 1] && c1[j] == c[j + 1]);
        }
        assert forall|x: int| a1.contains(x) <==> c1.contains(x) by {
            if a1.contains(x) {
                let k = choose|k: int| 0 <= k < a1.len() && a1[k] == x;
                assert(a[k + 1] == x);
                assert(a.contains(x));
                assert(a[0] < a[k + 1]);
                let m = choose|m: int| 0 <= m < c.len() && c[m] == x;
                assert(m != 0);
                assert(c1[m - 1] == x);
            }
            if c1.contains(x) {
                let k = choose|k: int| 0 <= k < c1.len() && c1[k] == x;
                assert(c[k + 1] == x);
                assert(c.contains(x));
                assert(c[0] < c[k + 1]);
                let m = choose|m: int| 0 <= m < a.len() && a[m] == x;
                assert(m != 0);
                assert(a1[m - 1] == x);
            }
        }
        lemma_increasing_eq(a1, c1);
        assert(a =~= seq![a[0]] + a1);
        assert(c =~= seq![c[0]] + c1);
    }
}

/// Where the line starts of `st` lie once two spaces went in at each.
pub open spec fn shifted_starts(st: Seq<int>) -> Seq<int> {
    Seq::new(st.len(), |i: int| st[i] + 2 * i)
}

/// The two inserted spaces at each line start of `st`, as spans of the
/// indented text.
pub open spec fn inserted_spans(st: Seq<int>) -> Seq<(usize, usize)> {
    Seq::new(st.len(), |i: int| ((st[i] + 2 * i) as usize, 2usize))
}

/// Removing the inserted spaces gives back the text they went into.
proof fn lemma_remove_inserted(b: Seq<u8>, st: Seq<int>)
    requires
        increasing(st),
        forall|i: int| 0 <= i < st.len() ==> 0 <= #[trigger] st[i] <= b.len(),
        b.len() + 2 * st.len() <= usize::MAX,
    ensures
        remove_spans(insert_indents(b, st), inserted_spans(st)) == b,
    decreases st.len(),
{
    if st.len() > 0 {
        let n = st.len() as int;
        let l = st.last();
        let pre = st.drop_last();
        let bl = b.take(l);
        assert(st[n - 1] == l);
        assert forall|a: int, c: int| 0 <= a < c < pre.len() implies #[trigger] pre[a] < #[trigger] pre[c] by {
            assert(pre[a] == st[a] && pre[c] == st[c]);
        }
        assert forall|i: int| 0 <= i < pre.len() implies 0 <= #[trigger] pre[i] <= bl.len() by {
            assert(pre[i] == st[i]);
            assert(st[i] < st[n - 1]);
        }
        lemma_insert_layout(bl, pre);
        lemma_remove_inserted(bl, pre);
        let x = insert_indents(bl, pre);
        let b2 = insert_indents(b, st);
        let sp = inserted_spans(st);
        assert(sp.drop_last() =~= inserted_spans(pre));
        assert(sp.last() == ((l + 2 * (n - 1)) as usize, 2usize));
        assert(b2 == x + indent_step() + b.skip(l));
        assert(b2.take(l + 2 * (n - 1)) =~= x);
        assert(b2.skip(l + 2 * (n - 1) + 2) =~= b.skip(l));
        assert(bl + b.skip(l) =~= b);
    }
}

/// Lines that each start with two spaces lose exactly those two.
proof fn lemma_dedent_two_each(b2: Seq<u8>, t: Seq<int>)
    requires
        forall|i: int| 0 <= i < t.len() ==> leading_spaces(b2, #[trigger] t[i]) == 2,
    ensures
        dedent_spans(b2, t) == Seq::new(t.len(), |i: int| (t[i] as usize, 2usize)),
    decreases t.len(),
{
    if t.len() > 0 {
        let pre = t.drop_last();
        assert forall|i: int| 0 <= i < pre.len() implies leading_spaces(b2, #[trigger] pre[i]) == 2 by {
            assert(pre[i] == t[i]);
        }
        lemma_dedent_two_each(b2, pre);
        assert(t[t.len() - 1] == t.last());
        assert(dedent_spans(b2, t) =~= Seq::new(t.len(), |i: int| (t[i] as usize, 2usize)));
    }
}

/// An offset past every inserted pair has all of them before it.
proof fn lemma_overlap_all(index: int, st: Seq<int>)
    requires
        forall|i: int| 0 <= i < st.len() ==> 0 <= #[trigger] st[i] + 2 * i && st[i] + 2 * i + 2 <= index,
        forall|i: int| 0 <= i < st.len() ==> #[trigger] st[i] + 2 * i + 2 <= usize::MAX,
    ensures
        total_overlap(index, inserted_spans(st)) == 2 * st.len(),
    decreases st.len(),
{
    if st.len() > 0 {
        let pre = st.drop_last();
        assert forall|i: int| 0 <= i < pre.len() implies 0 <= #[trigger] pre[i] + 2 * i && pre[i] + 2 * i + 2 <= index by {
            assert(pre[i] == st[i]);
        }
        assert forall|i: int| 0 <= i < pre.len() implies #[trigger] pre[i] + 2 * i + 2 <= usize::MAX by {
            assert(pre[i] == st[i]);
        }
        lemma_overlap_all(index, pre);
        assert(inserted_spans(st).drop_last() =~= inserted_spans(pre));
        assert(st[st.len() - 1] == st.last());
    }
}

/// An offset just past the first inserted pair, and not past the start of
/// any other, has only the first pair before it.
proof fn lemma_overlap_first(index: int, st: Seq<int>)
    requires
        st.len() >= 1,
        0 <= st[0],
        st[0] + 2 <= index,
        forall|i: int| 1 <= i < st.len() ==> index <= #[trigger] st[i] + 2 * i,
        forall|i: int| 0 <= i < st.len() ==> #[trigger] st[i] + 2 * i + 2 <= usize::MAX,
    ensures
        total_overlap(index, inserted_spans(st)) == 2,
    decreases st.len(),
{
    let pre = st.drop_last();
    assert(inserted_spans(st).drop_last() =~= inserted_spans(pre));
    assert(st[st.len() - 1] == st.last());
    if st.len() > 1 {
        assert(pre[0] == st[0]);
        assert forall|i: int| 1 <= i < pre.len() implies index <= #[trigger] pre[i] + 2 * i by {
            assert(pre[i] == st[i]);
        }
        assert forall|i: int| 0 <= i < pre.len() implies #[trigger] pre[i] + 2 * i + 2 <= usize::MAX by {
            assert(pre[i] == st[i]);
        }
        lemma_overlap_first(index, pre);
    } else {
        assert(pre.len() == 0);
        assert(total_overlap(index, inserted_spans(pre)) == 0);
    }
}

/// Once an offset reaches the first of increasing offsets, it counts it.
proof fn lemma_count_le_pos(st: Seq<int>, q: int)
    requires
        st.len() >= 1,
        st[0] <= q,
    ensures
        count_le(st, q) >= 1,
    decreases st.len(),
{
    if st.len() > 1 {
        assert(st.drop_last()[0] == st[0]);
        lemma_count_le_pos(st.drop_last(), q);
    }
}

/// The line starts of a selection `lo < hi`: they increase, lie in the
/// text and before `hi`, the first is the start of the line holding the
/// selection's lower end (held at the end of the text), and the others come
/// after that end; when the lower end is past the text there is just one.
proof fn lemma_selection_starts(b: Seq<u8>, lo: int, hi: int)
    requires
        0 <= lo < hi,
    ensures
        ({
            let st = spec_line_starts(b, lo, hi);
            let ss = min_off(lo, b.len() as int);
            &&& increasing(st)
            &&& st.len() >= 1
            &&& st[0] == line_start(b, ss)
            &&& forall|i: int| 0 <= i < st.len() ==> 0 <= #[trigger] st[i] <= b.len() && st[i] < hi
            &&& forall|i: int| 1 <= i < st.len() ==> #[trigger] st[i] >= ss + 1
            &&& lo > b.len() ==> st.len() == 1
        }),
{
    let len = b.len() as int;
    let ss = min_off(lo, len);
    let se = min_off(hi, len);
    let first = line_start(b, ss);
    lemma_line_start_no_break(b, ss);
    lemma_starts_from_members(b, first, se, hi);
    let rest = starts_from(b, first, se, hi);
    let st = spec_line_starts(b, lo, hi);
    assert(st =~= seq![first] + rest);
    assert forall|k: int| 0 <= k < rest.len() implies #[trigger] rest[k] >= ss + 1 by {
        assert(rest.contains(rest[k]));
        let x = rest[k];
        if x < ss + 1 {
            assert(first <= x - 1 < ss);
            assert(b[x - 1] != 10u8);
        }
    }
    assert forall|i: int, j: int| 0 <= i < j < st.len() implies #[trigger] st[i] < #[trigger] st[j] by {
        assert(st[j] == rest[j - 1]);
        assert(rest.contains(rest[j - 1]));
        if i > 0 {
            assert(st[i] == rest[i - 1]);
        }
    }
    assert forall|i: int| 0 <= i < st.len() implies 0 <= #[trigger] st[i] <= b.len() && st[i] < hi by {
        if i > 0 {
            assert(st[i] == rest[i - 1]);
            assert(rest.contains(rest[i - 1]));
        }
    }
    assert forall|i: int| 1 <= i < st.len() implies #[trigger] st[i] >= ss + 1 by {
        assert(st[i] == rest[i - 1]);
    }
    if lo > len && rest.len() > 0 {
        assert(rest.contains(rest[0]));
        assert(rest[0] <= se);
    }
}

/// After Tab, the line holding the selection's moved lower end still starts
/// where it did.
proof fn lemma_first_after_indent(b: Seq<u8>, lo: int, hi: int)
    requires
        0 <= lo < hi,
    ensures
        ({
            let st = spec_line_starts(b, lo, hi);
            let b2 = insert_indents(b, st);
            line_start(b2, min_off(lo + 2, b2.len() as int)) == st[0]
        }),
{
    let len = b.len() as int;
    let ss = min_off(lo, len);
    let st = spec_line_starts(b, lo, hi);
    let n = st.len() as int;
    lemma_selection_starts(b, lo, hi);
    lemma_insert_layout(b, st);
    lemma_line_start_no_break(b, ss);
    let b2 = insert_indents(b, st);
    let first = st[0];
    let ss2 = min_off(lo + 2, b2.len() as int);
    if first > 0 {
        lemma_count_le_at(st, 0, first - 1);
        assert(b2[first - 1 + 2 * count_le(st, first - 1)] == b[first - 1]);
    }
    assert forall|j: int| first <= j < ss2 implies #[trigger] b2[j] != 10u8 by {
        if b2[j] != 32u8 {
            let q = choose|q: int| 0 <= q < b.len() && j == q + 2 * #[trigger] count_le(st, q);
            assert(b2[q + 2 * count_le(st, q)] == b[q]);
            if q < first {
                lemma_count_le_at(st, 0, q);
            }
            if q >= ss {
                lemma_count_le_pos(st, q);
            }
            assert(first <= q < ss);
        }
    }
    lemma_line_start_unique(b2, first, ss2);
}

/// After Tab, the later line starts of the moved selection are the old
/// ones, each moved by the spaces inserted before it.
proof fn lemma_rest_after_indent(b: Seq<u8>, lo: int, hi: int)
    requires
        0 <= lo < hi,
    ensures
        ({
            let st = spec_line_starts(b, lo, hi);
            let b2 = insert_indents(b, st);
            let n = st.len() as int;
            starts_from(b2, st[0], min_off(hi + 2 * n, b2.len() as int), hi + 2 * n)
                == shifted_starts(st).drop_first()
        }),
{
    let len = b.len() as int;
    let ss = min_off(lo, len);
    let se = min_off(hi, len);
    let st = spec_line_starts(b, lo, hi);
    let n = st.len() as int;
    lemma_selection_starts(b, lo, hi);
    lemma_insert_layout(b, st);
    let first = st[0];
    let rest = starts_from(b, first, se, hi);
    lemma_starts_from_members(b, first, se, hi);
    assert(st =~= seq![first] + rest);
    let b2 = insert_indents(b, st);
    let se2 = min_off(hi + 2 * n, b2.len() as int);
    let hi2 = hi + 2 * n;
    assert(se2 == se + 2 * n);
    lemma_starts_from_members(b2, first, se2, hi2);
    let sf2 = starts_from(b2, first, se2, hi2);
    let t = shifted_starts(st).drop_first();
    assert forall|i: int, j: int| 0 <= i < j < t.len() implies #[trigger] t[i] < #[trigger] t[j] by {
        assert(t[i] == st[i + 1] + 2 * (i + 1));
        assert(t[j] == st[j + 1] + 2 * (j + 1));
        assert(st[i + 1] < st[j + 1]);
    }
    assert forall|x: int| sf2.contains(x) <==> t.contains(x) by {
        if t.contains(x) {
            let k = choose|k: int| 0 <= k < t.len() && t[k] == x;
            let i = k + 1;
            assert(t[k] == st[i] + 2 * i);
            assert(st[i] == rest[k]);
            assert(rest.contains(rest[k]));
            let q = st[i] - 1;
            assert(st[i - 1] < st[i]);
            lemma_count_le_at(st, i, q);
            assert(b2[q + 2 * count_le(st, q)] == b[q]);
            assert(sf2.contains(x));
        }
        if sf2.contains(x) {
            let j = x - 1;
            assert(b2[j] == 10u8);
            let q = choose|q: int| 0 <= q < b.len() && j == q + 2 * #[trigger] count_le(st, q);
            assert(b2[q + 2 * count_le(st, q)] == b[q]);
            if q < first {
                lemma_count_le_at(st, 0, q);
            }
            if q >= se || q + 1 >= hi {
                assert(st[n - 1] <= q);
                lemma_count_le_at(st, n, q);
            }
            assert(rest.contains(q + 1));
            let k = choose|k: int| 0 <= k < rest.len() && rest[k] == q + 1;
            let i = k + 1;
            assert(st[i] == q + 1);
            assert(st[i - 1] < st[i]);
            lemma_count_le_at(st, i, q);
            assert(t[k] == x);
        }
    }
    lemma_increasing_eq(sf2, t);
}

/// Shift-Tab right after Tab on a selection gives back the text and the
/// selection: Tab puts two spaces at the start of each selected line and
/// moves the selection over them, and Shift-Tab then finds exactly those
/// lines, each starting with the two spaces, and takes them out again.
#[verifier::rlimit(30)]
#[verifier::spinoff_prover]
pub proof fn law_dedent_undoes_indent(b: Seq<u8>, primary: int, secondary: int)
    requires
        0 <= primary,
        0 <= secondary,
        primary != secondary,
        b.len() + 2 * spec_line_starts(b, sel_lo(primary, secondary), sel_hi(primary, secondary)).len()
            <= usize::MAX,
    ensures
        spec_do_dedent(
            spec_do_indent(b, primary, secondary).0,
            spec_do_indent(b, primary, secondary).1,
            spec_do_indent(b, primary, secondary).2,
        ) == Some((b, primary, secondary)),
{
    let lo = sel_lo(primary, secondary);
    let hi = sel_hi(primary, secondary);
    let len = b.len() as int;
    let ss = min_off(lo, len);
    let st = spec_line_starts(b, lo, hi);
    let n = st.len() as int;
    lemma_selection_starts(b, lo, hi);
    lemma_insert_layout(b, st);
    lemma_first_after_indent(b, lo, hi);
    lemma_rest_after_indent(b, lo, hi);
    let b2 = insert_indents(b, st);
    let lo2 = lo + 2;
    let hi2 = hi + 2 * n;
    assert(lo2 < hi2);
    let st2 = spec_line_starts(b2, lo2, hi2);
    assert(st2 =~= shifted_starts(st));
    assert forall|i: int| 0 <= i < st2.len() implies leading_spaces(b2, #[trigger] st2[i]) == 2 by {
        assert(st2[i] == st[i] + 2 * i);
        assert(b2[st[i] + 2 * i] == 32u8);
    }
    lemma_dedent_two_each(b2, st2);
    assert(dedent_spans(b2, st2) =~= inserted_spans(st));
    lemma_remove_inserted(b, st);
    assert forall|i: int| 0 <= i < st.len() implies #[trigger] st[i] + 2 * i + 2 <= usize::MAX by {
    }
    assert forall|i: int| 1 <= i < st.len() implies lo2 <= #[trigger] st[i] + 2 * i by {
        assert(st[i] >= ss + 1);
    }
    lemma_line_start_no_break(b, ss);
    assert(st[0] <= lo);
    lemma_overlap_first(lo2, st);
    assert forall|i: int| 0 <= i < st.len() implies 0 <= #[trigger] st[i] + 2 * i && st[i] + 2 * i + 2 <= hi2 by {
    }
    lemma_overlap_all(hi2, st);
}

/// A boundary of `b` stays a boundary where Tab moved it: the byte there
/// is the same.
proof fn lemma_boundary_moved(b: Seq<u8>, b2: Seq<u8>, q: int, q2: int)
    requires
        valid_utf8(b),
        valid_utf8(b2),
        0 <= q < b.len(),
        0 <= q2 < b2.len(),
        b2[q2] == b[q],
        vstd::utf8::is_char_boundary(b, q),
    ensures
        vstd::utf8::is_char_boundary(b2, q2),
{
    vstd::utf8::is_char_boundary_iff_not_is_continuation_byte(b, q);
    vstd::utf8::is_char_boundary_iff_not_is_continuation_byte(b2, q2);
}

/// What Tab gives on a selection can be handed straight to Shift-Tab: the
/// selected lines of the indented text can be collected without cutting a
/// character, so Shift-Tab runs on it (and then undoes the Tab, as
/// `law_dedent_undoes_indent` states).
#[verifier::spinoff_prover]
pub proof fn law_indented_selection_can_dedent(b: Seq<u8>, primary: int, secondary: int)
    requires
        valid_utf8(b),
        0 <= primary,
        0 <= secondary,
        primary != secondary,
        indent_ok(b, primary, secondary),
        valid_utf8(spec_do_indent(b, primary, secondary).0),
    ensures
        ({
            let t = spec_do_indent(b, primary, secondary);
            line_starts_ok(t.0, sel_lo(t.1, t.2), sel_hi(t.1, t.2))
        }),
{
    let lo = sel_lo(primary, secondary);
    let hi = sel_hi(primary, secondary);
    let len = b.len() as int;
    let ss = min_off(lo, len);
    let se = min_off(hi, len);
    let st = spec_line_starts(b, lo, hi);
    let n = st.len() as int;
    lemma_selection_starts(b, lo, hi);
    lemma_insert_layout(b, st);
    lemma_first_after_indent(b, lo, hi);
    lemma_line_start_no_break(b, ss);
    let b2 = insert_indents(b, st);
    let len2 = b2.len() as int;
    let lo2 = lo + 2;
    let hi2 = hi + 2 * n;
    let t = spec_do_indent(b, primary, secondary);
    assert(t.0 == b2);
    assert(sel_lo(t.1, t.2) == lo2 && sel_hi(t.1, t.2) == hi2);
    let ss2 = min_off(lo2, len2);
    let se2 = min_off(hi2, len2);
    vstd::utf8::is_char_boundary_start_end_of_seq(b2);
    // the start of the selection
    if lo < len {
        assert forall|i: int| 1 <= i < st.len() implies lo < #[trigger] st[i] by {
            assert(st[i] >= ss + 1);
        }
        if n > 1 {
            assert(lo < st[1]);
        }
        lemma_count_le_at(st, 1, lo);
        assert(b2[lo + 2 * count_le(st, lo)] == b[lo]);
        lemma_boundary_moved(b, b2, lo, lo2);
        assert(ss2 == lo2);
    } else {
        if n > 1 {
            assert(st[1] >= ss + 1);
            assert(st[1] <= len);
        }
        assert(n == 1);
        assert(ss2 == len2);
    }
    // the end of the selection
    if hi < len {
        lemma_count_le_at(st, n, hi);
        assert(b2[hi + 2 * count_le(st, hi)] == b[hi]);
        assert(se == hi);
        lemma_boundary_moved(b, b2, hi, hi2);
        assert(se2 == hi2);
    } else {
        assert(se2 == len2);
    }
    assert(line_start(b2, ss2) == st[0]);
}

/// Tab then Shift-Tab on a selection of a text, as the two editor functions
/// see it: what `do_indent` returns meets what `do_dedent` requires, and
/// `do_dedent` on it gives back exactly the original text and selection.
/// The one condition beyond the inputs' validity is that the indented
/// text's length fits in a `usize`.
pub proof fn law_shift_tab_undoes_tab_on_text(
    content: Seq<char>,
    primary: int,
    secondary: int,
    indented: Seq<char>,
    p2: int,
    s2: int,
)
    requires
        0 <= primary,
        0 <= secondary,
        primary != secondary,
        indent_ok(vstd::utf8::encode_utf8(content), primary, secondary),
        vstd::utf8::encode_utf8(indented) == spec_do_indent(vstd::utf8::encode_utf8(content), primary, secondary).0,
        p2 == spec_do_indent(vstd::utf8::encode_utf8(content), primary, secondary).1,
        s2 == spec_do_indent(vstd::utf8::encode_utf8(content), primary, secondary).2,
        vstd::utf8::encode_utf8(indented).len() <= usize::MAX,
    ensures
        line_starts_ok(vstd::utf8::encode_utf8(indented), sel_lo(p2, s2), sel_hi(p2, s2)),
        spec_do_dedent(vstd::utf8::encode_utf8(indented), p2, s2) == Some(
            (vstd::utf8::encode_utf8(content), primary, secondary),
        ),
        forall|out: Seq<char>|
            #[trigger] vstd::utf8::encode_utf8(out) == vstd::utf8::encode_utf8(content) ==> out == content,
{
    let b = vstd::utf8::encode_utf8(content);
    let b2 = vstd::utf8::encode_utf8(indented);
    vstd::utf8::encode_utf8_valid_utf8(content);
    vstd::utf8::encode_utf8_valid_utf8(indented);
    law_indented_selection_can_dedent(b, primary, secondary);
    let lo = sel_lo(primary, secondary);
    let hi = sel_hi(primary, secondary);
    let st = spec_line_starts(b, lo, hi);
    lemma_selection_starts(b, lo, hi);
    lemma_insert_layout(b, st);
    law_dedent_undoes_indent(b, primary, secondary);
    assert forall|out: Seq<char>| #[trigger] vstd::utf8::encode_utf8(out) == b implies out == content by {
        vstd::utf8::encode_utf8_decode_utf8(out);
        vstd::utf8::encode_utf8_decode_utf8(content);
    }
}

/// Every page of the guide ends with the full feature guide; the page of
/// each editor begins with the help on editing; the overview begins with
/// the link to the grammar reference.
pub proof fn law_guide_pages(topic: HelpTopic)
    ensures
        guide_view(topic).len() >= feature_guide_items().len(),
        guide_view(topic).skip(guide_view(topic).len() - feature_guide_items().len())
            == feature_guide_items(),
        (topic == HelpTopic::Pikchr || topic == HelpTopic::Prolog || topic == HelpTopic::Tcl
            || topic == HelpTopic::Mruby || topic == HelpTopic::PlainText) ==> guide_view(topic).take(
            common_editor_items().len() as int,
        ) == common_editor_items(),
        topic == HelpTopic::Overview ==> guide_view(topic)[0] == GuideItemV::GrammarLink,
{
    let g = guide_view(topic);
    let f = feature_guide_items();
    assert(g.skip(g.len() - f.len()) =~= f);
    if topic == HelpTopic::Pikchr || topic == HelpTopic::Prolog || topic == HelpTopic::Tcl
        || topic == HelpTopic::Mruby || topic == HelpTopic::PlainText {
        assert(g.take(common_editor_items().len() as int) =~= common_editor_items());
    }
}

/// Expanding references never makes a window depend on itself: every
/// dependency recorded for window `id` is on another window.
pub proof fn law_no_self_dependency(sources: Seq<RefSourceV>, id: u64, content: Seq<char>, raw: bool)
    ensures
        forall|e: (u64, u64)| #[trigger] new_deps(sources, id, content, raw).contains(e) ==> e.1 == id && e.0 != id,
{
}

/// At most every offset is counted.
proof fn lemma_count_le_bound(st: Seq<int>, q: int)
    ensures
        count_le(st, q) <= st.len(),
    decreases st.len(),
{
    if st.len() > 0 {
        lemma_count_le_bound(st.drop_last(), q);
    }
}


/// Every other window that has a raw source offers it for `!!NAME!!`,
/// whether or not it also generates Pikchr: its pattern and its raw source
/// are among the raw replacements.
pub proof fn law_every_raw_source_is_offered(sources: Seq<RefSourceV>, id: u64, i: int)
    requires
        0 <= i < sources.len(),
        sources[i].id != id,
        sources[i].raw is Some,
    ensures
        raw_reps(sources, id).contains((raw_pattern(sources[i].name), sources[i].raw->0)),
    decreases sources.len(),
{
    let pre = sources.drop_last();
    let prev = raw_reps(pre, id);
    if i < sources.len() - 1 {
        assert(pre[i] == sources[i]);
        law_every_raw_source_is_offered(pre, id, i);
        let k = choose|k: int| 0 <= k < prev.len() && prev[k] == (raw_pattern(sources[i].name), sources[i].raw->0);
        let r = raw_reps(sources, id);
        if r != prev {
            assert(r == prev.push((raw_pattern(sources.last().name), sources.last().raw->0)));
            assert(r[k] == prev[k]);
        }
    } else {
        let r = raw_reps(sources, id);
        assert(r == prev.push((raw_pattern(sources[i].name), sources[i].raw->0)));
        assert(r[r.len() - 1] == (raw_pattern(sources[i].name), sources[i].raw->0));
    }
}

/// A text that is just a reference `!!NAME!!` to the one other window,
/// which has a raw source `r` (holding no `!!` itself), expands to `r`,
/// whether or not that window also generates Pikchr.
pub proof fn law_raw_reference_expands(src: RefSourceV, id: u64, r: Seq<char>)
    requires
        src.id != id,
        src.raw == Some(r),
        no_double(r, '!'),
    ensures
        three_passes(raw_pattern(src.name), raw_reps(seq![src], id)) == r,
{
    let p = raw_pattern(src.name);
    let reps = raw_reps(seq![src], id);
    assert(seq![src].drop_last() =~= Seq::<RefSourceV>::empty());
    assert(seq![src].last() == src);
    assert(raw_reps(seq![src].drop_last(), id) == Seq::<(Seq<char>, Seq<char>)>::empty());
    assert(reps =~= seq![(p, r)]);
    assert(reps.drop_last() =~= Seq::<(Seq<char>, Seq<char>)>::empty());
    assert(reps.last() == (p, r));
    assert(apply_replacements(p, reps.drop_last()) == p);
    assert(apply_replacements(r, reps.drop_last()) == r);
    assert(starts_with(p, p)) by {
        assert(p.take(p.len() as int) =~= p);
    }
    assert(p.skip(p.len() as int) =~= Seq::<char>::empty());
    assert(replace_all(Seq::<char>::empty(), p, r) == Seq::<char>::empty());
    assert(replace_all(p, p, r) =~= r);
    assert(apply_replacements(p, reps) == r);
    assert(p[0] == '!' && p[1] == '!');
    lemma_replace_absent(r, p, r, '!');
    assert(apply_replacements(r, reps) == r);
}


/// Every other window that generates Pikchr offers it for `$$NAME$$`,
/// followed by `;`.
pub proof fn law_every_pikchr_source_is_offered(sources: Seq<RefSourceV>, id: u64, i: int)
    requires
        0 <= i < sources.len(),
        sources[i].id != id,
        sources[i].pikchr is Some,
    ensures
        pikchr_reps(sources, id).contains((pikchr_pattern(sources[i].name), sources[i].pikchr->0.push(';'))),
    decreases sources.len(),
{
    let pre = sources.drop_last();
    let prev = pikchr_reps(pre, id);
    let r = pikchr_reps(sources, id);
    let e = (pikchr_pattern(sources[i].name), sources[i].pikchr->0.push(';'));
    if i < sources.len() - 1 {
        assert(pre[i] == sources[i]);
        law_every_pikchr_source_is_offered(pre, id, i);
        let k = choose|k: int| 0 <= k < prev.len() && prev[k] == e;
        if r != prev {
            assert(r == prev.push((pikchr_pattern(sources.last().name), sources.last().pikchr->0.push(';'))));
            assert(r[k] == prev[k]);
        }
    } else {
        assert(r == prev.push(e));
        assert(r[r.len() - 1] == e);
    }
}

} // verus!
