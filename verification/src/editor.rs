//! Editing helpers of the source editors: automatic indentation on Enter,
//! and indenting or dedenting the selected lines with Tab and Shift-Tab.
//!
//! Positions into the text are byte offsets into its UTF-8 encoding, as the
//! editors use them.
use vstd::prelude::*;
use vstd::string::StringSliceAdditionalSpecFns;
use vstd::utf8::{
    encode_scalar, encode_utf8, is_char_boundary, is_char_boundary_iff_not_is_continuation_byte,
    is_char_boundary_start_end_of_seq, length_of_first_scalar, pop_first_scalar, valid_utf8,
    valid_utf8_split, encode_utf8_valid_utf8, decode_utf8, encode_utf8_decode_utf8,
};
use crate::text::{chars_of, leading_ws, push_range, spec_is_whitespace, split_newlines, string_of};

verus! {

/// The whitespace that `line` starts with.
pub fn get_line_indent(line: &str) -> (r: String)
    ensures
        r@ == line@.take(leading_ws(line@) as int),
{
    let v = chars_of(line);
    let a = crate::text::trim_start_range(&v, 0, v.len());
    assert(v@.subrange(0, v@.len() as int) =~= v@);
    let mut out: Vec<char> = Vec::new();
    push_range(&mut out, &v, 0, a);
    assert(v@.subrange(0, a as int) =~= line@.take(leading_ws(line@) as int));
    string_of(&out)
}

/// The last piece of `split_newlines(s)` is what follows the last `'\n'`.
proof fn lemma_last_piece(s: Seq<char>, k: int)
    requires
        0 <= k <= s.len(),
        k == 0 || s[k - 1] == '\n',
        forall|j: int| k <= j < s.len() ==> #[trigger] s[j] != '\n',
    ensures
        split_newlines(s).last() == s.skip(k),
    decreases s.len(),
{
    if s.len() == 0 {
    } else if s.len() == k {
        assert(s.skip(k) =~= Seq::<char>::empty());
    } else {
        let p = s.drop_last();
        assert forall|j: int| k <= j < p.len() implies #[trigger] p[j] != '\n' by {
            assert(p[j] == s[j]);
        }
        if k > 0 {
            assert(p[k - 1] == s[k - 1]);
        }
        lemma_last_piece(p, k);
        crate::text::lemma_split_newlines_len(p);
        assert(s.skip(k) =~= p.skip(k).push(s.last()));
    }
}

/// The text after the last `'\n'` of `line`, or all of it.
pub fn get_last_line(line: &str) -> (r: String)
    ensures
        r@ == split_newlines(line@).last(),
        exists|k: int|
            0 <= k <= line@.len() && (k == 0 || line@[k - 1] == '\n') && r@ == line@.skip(k),
        forall|j: int| 0 <= j < r@.len() ==> #[trigger] r@[j] != '\n',
{
    let v = chars_of(line);
    let mut k = v.len();
    while k > 0 && v[k - 1] != '\n'
        invariant
            0 <= k <= v.len(),
            forall|j: int| k <= j < v.len() ==> #[trigger] v@[j] != '\n',
        decreases k,
    {
        k = k - 1;
    }
    proof {
        lemma_last_piece(v@, k as int);
    }
    let mut out: Vec<char> = Vec::new();
    push_range(&mut out, &v, k, v.len());
    assert(v@.subrange(k as int, v.len() as int) =~= v@.skip(k as int));
    assert forall|j: int| 0 <= j < v@.skip(k as int).len() implies #[trigger] v@.skip(k as int)[j] != '\n' by {
        assert(v@.skip(k as int)[j] == v@[k + j]);
    }
    string_of(&out)
}

/// Marks an editor window that gets the automatic indentation on Enter and
/// the Tab / Shift-Tab line indentation.
pub trait Editor {
}

/// Offset of the start of the line holding offset `i` of the text `b`: one
/// past the last `'\n'` before `i`, or 0.
pub open spec fn line_start(b: Seq<u8>, i: int) -> int
    decreases i,
{
    if i <= 0 {
        0
    } else if b[i - 1] == 10u8 {
        i
    } else {
        line_start(b, i - 1)
    }
}

/// The line starts after `p`, up to `se`: one past each `'\n'` at offsets
/// `p..se`, when that is before `end`.
pub open spec fn starts_from(b: Seq<u8>, p: int, se: int, end: int) -> Seq<int>
    decreases se - p,
{
    if p >= se {
        Seq::empty()
    } else {
        let rest = starts_from(b, p + 1, se, end);
        if b[p] == 10u8 && p + 1 < end {
            seq![p + 1] + rest
        } else {
            rest
        }
    }
}

/// The smaller of two offsets.
pub open spec fn min_off(a: int, b: int) -> int {
    if a <= b {
        a
    } else {
        b
    }
}

/// The start of every line that the range `start..end` of the text with
/// UTF-8 encoding `b` spans: the start of the line holding `start`, then
/// the start of each later line that begins before `end` (a line starting
/// exactly at `end` is not selected). Offsets past the end of the text count
/// as its end.
pub open spec fn spec_line_starts(b: Seq<u8>, start: int, end: int) -> Seq<int> {
    let ss = min_off(start, b.len() as int);
    let se = min_off(end, b.len() as int);
    let first = line_start(b, ss);
    seq![first] + starts_from(b, first, se, end)
}

/// The text can be cut where the editors cut it without splitting a
/// character, and the range it looks at runs forwards.
pub open spec fn line_starts_ok(b: Seq<u8>, start: int, end: int) -> bool {
    let ss = min_off(start, b.len() as int);
    let se = min_off(end, b.len() as int);
    &&& is_char_boundary(b, ss)
    &&& is_char_boundary(b, se)
    &&& line_start(b, ss) <= se
}

/// Collects the byte offset of the first character of every line spanned
/// by the range `start..end` of `content`. A line whose start equals `end`
/// is left out: the selection ends at its very beginning.
pub fn collect_line_starts(content: &str, start: usize, end: usize) -> (r: Vec<usize>)
    requires
        line_starts_ok(content.spec_bytes(), start as int, end as int),
    ensures
        r@.map_values(|x: usize| x as int) == spec_line_starts(
            content.spec_bytes(),
            start as int,
            end as int,
        ),
{
    let bytes = content.as_bytes();
    let ghost b = content.spec_bytes();
    let n = bytes.len();
    let ss = if start < n {
        start
    } else {
        n
    };
    let se = if end < n {
        end
    } else {
        n
    };
    let mut first = ss;
    while first > 0 && bytes[first - 1] != 10u8
        invariant
            0 <= first <= ss <= n,
            n == b.len(),
            bytes@ == b,
            line_start(b, first as int) == line_start(b, ss as int),
        decreases first,
    {
        first = first - 1;
    }
    let mut r: Vec<usize> = Vec::new();
    r.push(first);
    let mut p = first;
    assert(r@.map_values(|x: usize| x as int) =~= seq![first as int]);
    while p < se
        invariant
            first <= p <= se <= n,
            n == b.len(),
            bytes@ == b,
            line_start(b, ss as int) == first,
            r@.map_values(|x: usize| x as int) + starts_from(b, p as int, se as int, end as int)
                == spec_line_starts(b, start as int, end as int),
        decreases se - p,
    {
        let ghost before = r@.map_values(|x: usize| x as int);
        if bytes[p] == 10u8 && p + 1 < end {
            r.push(p + 1);
            assert(r@.map_values(|x: usize| x as int) =~= before.push(p + 1));
            assert(before + starts_from(b, p as int, se as int, end as int) =~= before.push(p + 1)
                + starts_from(b, p + 1, se as int, end as int));
        }
        p = p + 1;
    }
    assert(starts_from(b, p as int, se as int, end as int) =~= Seq::<int>::empty());
    r
}

/// How much of the span `r` (offset, length) lies before `index`.
pub open spec fn overlap(index: int, r: (usize, usize)) -> int {
    if r.0 + r.1 <= index {
        r.1 as int
    } else if r.0 < index {
        index - r.0
    } else {
        0
    }
}

/// How much of the spans `rs` lies before `index`.
pub open spec fn total_overlap(index: int, rs: Seq<(usize, usize)>) -> int
    decreases rs.len(),
{
    if rs.len() == 0 {
        0
    } else {
        total_overlap(index, rs.drop_last()) + overlap(index, rs.last())
    }
}

/// No span of `rs` runs past the largest offset.
pub open spec fn spans_fit(rs: Seq<(usize, usize)>) -> bool {
    forall|k: int| 0 <= k < rs.len() ==> (#[trigger] rs[k]).0 + rs[k].1 <= usize::MAX
}

/// The overlap of a prefix of spans is at most that of all of them.
proof fn lemma_total_overlap_mono(index: int, rs: Seq<(usize, usize)>, k: int)
    requires
        0 <= k <= rs.len(),
    ensures
        0 <= total_overlap(index, rs.take(k)) <= total_overlap(index, rs),
    decreases rs.len(),
{
    if k < rs.len() {
        lemma_total_overlap_mono(index, rs.drop_last(), k);
        assert(rs.drop_last().take(k) =~= rs.take(k));
    } else {
        assert(rs.take(k) =~= rs);
        lemma_total_overlap_nonneg(index, rs);
    }
}

/// Overlaps are never negative.
proof fn lemma_total_overlap_nonneg(index: int, rs: Seq<(usize, usize)>)
    ensures
        total_overlap(index, rs) >= 0,
    decreases rs.len(),
{
    if rs.len() > 0 {
        lemma_total_overlap_nonneg(index, rs.drop_last());
    }
}

/// Adjusts a character index after removals were applied to the text.
/// `removals` holds `(position, count)` pairs, each a removed span; the
/// index moves back by how much of them lay before it.
pub fn adjust_after_removals(index: usize, removals: &[(usize, usize)]) -> (r: usize)
    requires
        spans_fit(removals@),
        total_overlap(index as int, removals@) <= index,
    ensures
        r == index - total_overlap(index as int, removals@),
{
    let mut subtract: usize = 0;
    let mut k: usize = 0;
    assert(removals@.take(0) =~= Seq::<(usize, usize)>::empty());
    while k < removals.len()
        invariant
            0 <= k <= removals.len(),
            spans_fit(removals@),
            total_overlap(index as int, removals@) <= index,
            subtract == total_overlap(index as int, removals@.take(k as int)),
        decreases removals.len() - k,
    {
        proof {
            lemma_total_overlap_mono(index as int, removals@, k + 1);
        }
        assert(removals@.take(k + 1).drop_last() =~= removals@.take(k as int));
        assert(removals@.take(k + 1).last() == removals@[k as int]);
        let (pos, count) = removals[k];
        assert(removals@[k as int].0 + removals@[k as int].1 <= usize::MAX);
        if pos + count <= index {
            subtract = subtract + count;
        } else if pos < index {
            subtract = subtract + (index - pos);
        }
        k = k + 1;
    }
    assert(removals@.take(removals.len() as int) =~= removals@);
    index - subtract
}

/// The bytes of a text are those of its parts, one after the other.
pub proof fn lemma_encode_concat(a: Seq<char>, c: Seq<char>)
    ensures
        encode_utf8(a + c) == encode_utf8(a) + encode_utf8(c),
    decreases a.len(),
{
    if a.len() == 0 {
        assert(a + c =~= c);
        assert(encode_utf8(a) =~= Seq::<u8>::empty());
        assert(encode_utf8(a) + encode_utf8(c) =~= encode_utf8(c));
    } else {
        lemma_encode_concat(a.drop_first(), c);
        assert((a + c).drop_first() =~= a.drop_first() + c);
        assert((a + c)[0] == a[0]);
        assert(encode_utf8(a + c) =~= encode_utf8(a) + encode_utf8(c));
    }
}

/// In valid UTF-8, an ASCII byte at a character boundary is a whole
/// character, so the next offset is a boundary too.
proof fn lemma_boundary_after_ascii(b: Seq<u8>, i: int)
    requires
        valid_utf8(b),
        0 <= i < b.len(),
        is_char_boundary(b, i),
        b[i] < 0x80u8,
    ensures
        is_char_boundary(b, i + 1),
    decreases b.len(),
{
    let l = length_of_first_scalar(b);
    let rest = pop_first_scalar(b);
    assert(1 <= l <= b.len());
    assert(rest =~= b.subrange(l, b.len() as int));
    if i == 0 {
        assert(l == 1);
        assert(is_char_boundary(rest, 0));
    } else {
        if i < l {
            assert(i - l < 0);
            assert(!is_char_boundary(b, i));
        }
        assert(is_char_boundary(rest, i - l));
        assert(rest[i - l] == b[i]);
        lemma_boundary_after_ascii(rest, i - l);
    }
}

/// A boundary of valid UTF-8 stays one in every prefix that reaches it.
proof fn lemma_boundary_in_prefix(b: Seq<u8>, p: int, q: int)
    requires
        valid_utf8(b),
        0 <= p <= q <= b.len(),
        is_char_boundary(b, p),
        is_char_boundary(b, q),
    ensures
        valid_utf8(b.take(q)),
        is_char_boundary(b.take(q), p),
{
    valid_utf8_split(b, q);
    assert(b.subrange(0, q) =~= b.take(q));
    if p == q {
        is_char_boundary_start_end_of_seq(b.take(q));
    } else {
        is_char_boundary_iff_not_is_continuation_byte(b, p);
        is_char_boundary_iff_not_is_continuation_byte(b.take(q), p);
    }
}

/// The offset after a line break of valid UTF-8 is a character boundary.
proof fn lemma_boundary_after_newline(b: Seq<u8>, p: int)
    requires
        valid_utf8(b),
        0 <= p < b.len(),
        b[p] == 10u8,
    ensures
        is_char_boundary(b, p + 1),
{
    is_char_boundary_iff_not_is_continuation_byte(b, p);
    lemma_boundary_after_ascii(b, p);
}

/// The offsets `st` are character boundaries of `b`, in increasing order,
/// and each but the first follows a line break.
pub open spec fn starts_well_formed(b: Seq<u8>, st: Seq<int>) -> bool {
    &&& forall|i: int| 0 <= i < st.len() ==> 0 <= #[trigger] st[i] <= b.len()
    &&& forall|i: int| 0 <= i < st.len() ==> is_char_boundary(b, #[trigger] st[i])
    &&& forall|i: int, j: int| 0 <= i < j < st.len() ==> #[trigger] st[i] < #[trigger] st[j]
    &&& forall|j: int| 1 <= j < st.len() ==> b[#[trigger] st[j] - 1] == 10u8
}

/// Where the line holding `i` starts.
proof fn lemma_line_start(b: Seq<u8>, i: int)
    requires
        0 <= i <= b.len(),
    ensures
        0 <= line_start(b, i) <= i,
        line_start(b, i) == 0 || b[line_start(b, i) - 1] == 10u8,
    decreases i,
{
    if i > 0 && b[i - 1] != 10u8 {
        lemma_line_start(b, i - 1);
    }
}

/// The later line starts lie after `p`, each after a line break, in
/// increasing order.
proof fn lemma_starts_from(b: Seq<u8>, p: int, se: int, end: int)
    requires
        0 <= p,
        se <= b.len(),
        valid_utf8(b),
    ensures
        forall|k: int|
            0 <= k < starts_from(b, p, se, end).len() ==> p < #[trigger] starts_from(b, p, se, end)[k]
                <= se,
        forall|k: int|
            0 <= k < starts_from(b, p, se, end).len() ==> b[#[trigger] starts_from(b, p, se, end)[k]
                - 1] == 10u8,
        forall|k: int|
            0 <= k < starts_from(b, p, se, end).len() ==> is_char_boundary(
                b,
                #[trigger] starts_from(b, p, se, end)[k],
            ),
        forall|i: int, j: int|
            0 <= i < j < starts_from(b, p, se, end).len() ==> #[trigger] starts_from(b, p, se, end)[i]
                < #[trigger] starts_from(b, p, se, end)[j],
    decreases se - p,
{
    if p < se {
        lemma_starts_from(b, p + 1, se, end);
        let rest = starts_from(b, p + 1, se, end);
        if b[p] == 10u8 && p + 1 < end {
            lemma_boundary_after_newline(b, p);
            let all = starts_from(b, p, se, end);
            assert(all =~= seq![p + 1] + rest);
            assert forall|k: int| 0 <= k < all.len() implies p < #[trigger] all[k] <= se && b[all[k]
                - 1] == 10u8 && is_char_boundary(b, all[k]) by {
                if k > 0 {
                    assert(all[k] == rest[k - 1]);
                }
            }
            assert forall|i: int, j: int| 0 <= i < j < all.len() implies #[trigger] all[i]
                < #[trigger] all[j] by {
                assert(all[j] == rest[j - 1]);
                if i > 0 {
                    assert(all[i] == rest[i - 1]);
                }
            }
        }
    }
}

/// The line starts of a selection are well formed, and there is at least
/// one.
proof fn lemma_line_starts(b: Seq<u8>, start: int, end: int)
    requires
        valid_utf8(b),
        line_starts_ok(b, start, end),
    ensures
        starts_well_formed(b, spec_line_starts(b, start, end)),
        spec_line_starts(b, start, end).len() >= 1,
{
    let ss = min_off(start, b.len() as int);
    let se = min_off(end, b.len() as int);
    let first = line_start(b, ss);
    lemma_line_start(b, ss);
    if first == 0 {
        is_char_boundary_start_end_of_seq(b);
    } else {
        lemma_boundary_after_newline(b, first - 1);
    }
    lemma_starts_from(b, first, se, end);
    let rest = starts_from(b, first, se, end);
    let all = spec_line_starts(b, start, end);
    assert(all =~= seq![first] + rest);
    assert forall|i: int| 0 <= i < all.len() implies 0 <= #[trigger] all[i] <= b.len()
        && is_char_boundary(b, all[i]) by {
        if i > 0 {
            assert(all[i] == rest[i - 1]);
        }
    }
    assert forall|i: int, j: int| 0 <= i < j < all.len() implies #[trigger] all[i]
        < #[trigger] all[j] by {
        assert(all[j] == rest[j - 1]);
        if i > 0 {
            assert(all[i] == rest[i - 1]);
        }
    }
    assert forall|j: int| 1 <= j < all.len() implies b[#[trigger] all[j] - 1] == 10u8 by {
        assert(all[j] == rest[j - 1]);
    }
}

/// Two spaces: one step of indentation.
pub open spec fn indent_step() -> Seq<u8> {
    seq![32u8, 32u8]
}

/// `b` with two spaces inserted at each offset of `starts`.
pub open spec fn insert_indents(b: Seq<u8>, starts: Seq<int>) -> Seq<u8>
    decreases starts.len(),
{
    if starts.len() == 0 {
        b
    } else {
        let s = starts.last();
        insert_indents(b.take(s), starts.drop_last()) + indent_step() + b.skip(s)
    }
}

/// Indenting a longer prefix adds the extra bytes at the end.
proof fn lemma_insert_indents_extend(b: Seq<u8>, st: Seq<int>, p: int, q: int)
    requires
        0 <= p <= q <= b.len(),
        forall|i: int| 0 <= i < st.len() ==> 0 <= #[trigger] st[i] <= p,
    ensures
        insert_indents(b.take(q), st) == insert_indents(b.take(p), st) + b.subrange(p, q),
    decreases st.len(),
{
    if st.len() == 0 {
        assert(b.take(q) =~= b.take(p) + b.subrange(p, q));
    } else {
        let l = st.last();
        assert(st.drop_last().len() < st.len());
        assert(b.take(q).take(l) =~= b.take(l));
        assert(b.take(p).take(l) =~= b.take(l));
        assert(b.take(q).skip(l) =~= b.take(p).skip(l) + b.subrange(p, q));
        assert(insert_indents(b.take(q), st) =~= insert_indents(b.take(p), st) + b.subrange(p, q));
    }
}

/// The bytes of two spaces.
proof fn lemma_two_spaces()
    ensures
        encode_utf8("  "@) == indent_step(),
{
    reveal_strlit("  ");
    let sp = "  "@;
    assert(sp.len() == 2 && sp[0] == ' ' && sp[1] == ' ');
    assert((32u32 & 0x7Fu32) as u8 == 32u8) by (bit_vector);
    assert(encode_scalar(' ' as u32) =~= seq![32u8]);
    assert(sp.drop_first().drop_first() =~= Seq::<char>::empty());
    assert(encode_utf8(sp.drop_first().drop_first()) =~= Seq::<u8>::empty());
    assert(encode_utf8(sp.drop_first()) =~= seq![32u8]);
    assert(encode_utf8(sp) =~= seq![32u8, 32u8]);
}

/// The text `content` with two spaces inserted at each offset of `starts`.
fn insert_indents_at(content: &str, starts: &Vec<usize>) -> (r: String)
    requires
        starts_well_formed(content.spec_bytes(), starts@.map_values(|x: usize| x as int)),
    ensures
        encode_utf8(r@) == insert_indents(
            content.spec_bytes(),
            starts@.map_values(|x: usize| x as int),
        ),
{
    let ghost b = content.spec_bytes();
    let ghost st = starts@.map_values(|x: usize| x as int);
    proof {
        encode_utf8_valid_utf8(content@);
        is_char_boundary_start_end_of_seq(b);
        lemma_two_spaces();
    }
    let mut out = String::new();
    let mut prev: usize = 0;
    let mut k: usize = 0;
    assert(encode_utf8(out@) =~= Seq::<u8>::empty());
    assert(b.take(0) =~= Seq::<u8>::empty());
    while k < starts.len()
        invariant
            0 <= k <= starts.len(),
            b == content.spec_bytes(),
            st == starts@.map_values(|x: usize| x as int),
            valid_utf8(b),
            starts_well_formed(b, st),
            encode_utf8("  "@) == indent_step(),
            prev as int == (if k == 0 {
                0
            } else {
                st[k - 1]
            }),
            0 <= prev <= b.len(),
            is_char_boundary(b, prev as int),
            encode_utf8(out@) == insert_indents(b.take(prev as int), st.take(k as int)),
        decreases starts.len() - k,
    {
        let s = starts[k];
        assert(st[k as int] == s);
        if k > 0 {
            assert(st[k - 1] < st[k as int]);
        }
        proof {
            lemma_boundary_in_prefix(b, prev as int, s as int);
        }
        let (head, _) = content.split_at(s);
        let (_, piece) = head.split_at(prev);
        assert(piece.spec_bytes() =~= b.subrange(prev as int, s as int));
        let ghost before = out@;
        out.append(piece);
        let ghost mid = out@;
        out.append("  ");
        proof {
            lemma_encode_concat(before, piece@);
            lemma_encode_concat(mid, "  "@);
            assert forall|i: int| 0 <= i < st.take(k as int).len() implies 0 <= #[trigger] st.take(
                k as int,
            )[i] <= prev by {
                assert(st.take(k as int)[i] == st[i]);
                if i < k - 1 {
                    assert(st[i] < st[k - 1]);
                }
            }
            lemma_insert_indents_extend(b, st.take(k as int), prev as int, s as int);
            let t = st.take(k + 1);
            assert(t.drop_last() =~= st.take(k as int));
            assert(t.last() == s);
            assert(b.take(s as int).take(s as int) =~= b.take(s as int));
            assert(b.take(s as int).skip(s as int) =~= Seq::<u8>::empty());
            assert(insert_indents(b.take(s as int), t) =~= insert_indents(
                b.take(s as int),
                st.take(k as int),
            ) + indent_step());
            assert(encode_utf8(out@) =~= insert_indents(b.take(s as int), t));
        }
        prev = s;
        k = k + 1;
    }
    let (_, tail) = content.split_at(prev);
    let ghost before = out@;
    out.append(tail);
    proof {
        lemma_encode_concat(before, tail@);
        assert(tail.spec_bytes() =~= b.subrange(prev as int, b.len() as int));
        assert(st.take(k as int) =~= st);
        assert forall|i: int| 0 <= i < st.len() implies 0 <= #[trigger] st[i] <= prev by {
            if i < k - 1 {
                assert(st[i] < st[k - 1]);
            }
        }
        lemma_insert_indents_extend(b, st, prev as int, b.len() as int);
        assert(b.take(b.len() as int) =~= b);
    }
    out
}

/// The lower and the upper end of the selection between `primary` and
/// `secondary`.
pub open spec fn sel_lo(primary: int, secondary: int) -> int {
    if primary <= secondary {
        primary
    } else {
        secondary
    }
}

/// See `sel_lo`.
pub open spec fn sel_hi(primary: int, secondary: int) -> int {
    if primary <= secondary {
        secondary
    } else {
        primary
    }
}

/// What Tab does to the text with bytes `b` and the cursor or selection
/// `primary`..`secondary`: the new bytes and the new `primary` and
/// `secondary`. With no selection, two spaces go in at the cursor (held at
/// the end of the text) and the cursor moves past them. With a selection,
/// every selected line gets two spaces at its start; the selection's lower
/// end moves by two and its upper end by two for each line, and the cursor
/// stays at the same end of it.
pub open spec fn spec_do_indent(b: Seq<u8>, primary: int, secondary: int) -> (Seq<u8>, int, int) {
    if primary == secondary {
        let pos = min_off(primary, b.len() as int);
        (insert_indents(b, seq![pos]), pos + 2, pos + 2)
    } else {
        let lo = sel_lo(primary, secondary);
        let hi = sel_hi(primary, secondary);
        let st = spec_line_starts(b, lo, hi);
        let ns = lo + 2;
        let ne = hi + 2 * st.len();
        if primary < secondary {
            (insert_indents(b, st), ns, ne)
        } else {
            (insert_indents(b, st), ne, ns)
        }
    }
}

/// Tab can be applied without cutting a character in two, and the new
/// cursor offsets fit in a `usize`.
pub open spec fn indent_ok(b: Seq<u8>, primary: int, secondary: int) -> bool {
    if primary == secondary {
        let pos = min_off(primary, b.len() as int);
        is_char_boundary(b, pos) && pos + 2 <= usize::MAX
    } else {
        let lo = sel_lo(primary, secondary);
        let hi = sel_hi(primary, secondary);
        line_starts_ok(b, lo, hi) && hi + 2 * spec_line_starts(b, lo, hi).len() <= usize::MAX
    }
}

/// Tab: inserts two spaces at the cursor, or at the start of every selected
/// line, and says where the cursor and the selection's other end go.
pub fn do_indent(content: &str, primary: usize, secondary: usize) -> (r: (String, usize, usize))
    requires
        indent_ok(content.spec_bytes(), primary as int, secondary as int),
    ensures
        encode_utf8(r.0@) == spec_do_indent(content.spec_bytes(), primary as int, secondary as int).0,
        r.1 == spec_do_indent(content.spec_bytes(), primary as int, secondary as int).1,
        r.2 == spec_do_indent(content.spec_bytes(), primary as int, secondary as int).2,
{
    let ghost b = content.spec_bytes();
    proof {
        encode_utf8_valid_utf8(content@);
    }
    if primary == secondary {
        let len = content.as_bytes().len();
        let pos = if primary < len {
            primary
        } else {
            len
        };
        let mut starts: Vec<usize> = Vec::new();
        starts.push(pos);
        let ghost one = seq![pos as int];
        assert(starts@.map_values(|x: usize| x as int) =~= one);
        assert(pos as int == min_off(primary as int, b.len() as int));
        assert forall|i: int| 0 <= i < one.len() implies 0 <= #[trigger] one[i] <= b.len()
            && is_char_boundary(b, one[i]) by {
            assert(one[i] == pos);
        }
        assert(starts_well_formed(b, one));
        let out = insert_indents_at(content, &starts);
        (out, pos + 2, pos + 2)
    } else {
        let start = if primary < secondary {
            primary
        } else {
            secondary
        };
        let end = if primary < secondary {
            secondary
        } else {
            primary
        };
        let starts = collect_line_starts(content, start, end);
        proof {
            lemma_line_starts(b, start as int, end as int);
        }
        let out = insert_indents_at(content, &starts);
        let n = starts.len();
        assert(n == spec_line_starts(b, start as int, end as int).len());
        let new_start = start + 2;
        let new_end = end + 2 * n;
        if primary < secondary {
            (out, new_start, new_end)
        } else {
            (out, new_end, new_start)
        }
    }
}

/// How many spaces, at most two, the line starting at `s` begins with.
pub open spec fn leading_spaces(b: Seq<u8>, s: int) -> int {
    if 0 <= s < b.len() && b[s] == 32u8 {
        if s + 1 < b.len() && b[s + 1] == 32u8 {
            2
        } else {
            1
        }
    } else {
        0
    }
}

/// The spans that Shift-Tab removes from the lines starting at `starts`:
/// `(start, count)` for each line that begins with a space, `count` being
/// its leading spaces, at most two.
pub open spec fn dedent_spans(b: Seq<u8>, starts: Seq<int>) -> Seq<(usize, usize)>
    decreases starts.len(),
{
    if starts.len() == 0 {
        Seq::empty()
    } else {
        let prev = dedent_spans(b, starts.drop_last());
        let s = starts.last();
        let c = leading_spaces(b, s);
        if c > 0 {
            prev.push((s as usize, c as usize))
        } else {
            prev
        }
    }
}

/// `b` without the spans `rs`.
pub open spec fn remove_spans(b: Seq<u8>, rs: Seq<(usize, usize)>) -> Seq<u8>
    decreases rs.len(),
{
    if rs.len() == 0 {
        b
    } else {
        let r = rs.last();
        remove_spans(b.take(r.0 as int), rs.drop_last()) + b.skip(r.0 + r.1)
    }
}

/// The spans of `rs` lie in `b`, start and end at character boundaries,
/// and come one after another without overlapping.
pub open spec fn spans_well_formed(b: Seq<u8>, rs: Seq<(usize, usize)>) -> bool {
    &&& forall|i: int| 0 <= i < rs.len() ==> (#[trigger] rs[i]).0 + rs[i].1 <= b.len()
    &&& forall|i: int| 0 <= i < rs.len() ==> is_char_boundary(b, (#[trigger] rs[i]).0 as int)
    &&& forall|i: int| 0 <= i < rs.len() ==> is_char_boundary(b, (#[trigger] rs[i]).0 + rs[i].1)
    &&& forall|i: int, j: int| 0 <= i < j < rs.len() ==> (#[trigger] rs[i]).0 + rs[i].1 <= (
    #[trigger] rs[j]).0
}

/// The dedent spans of well-formed line starts are well formed: a line
/// start follows a line break, so the spaces of one line never reach the
/// next.
proof fn lemma_dedent_spans(b: Seq<u8>, st: Seq<int>)
    requires
        valid_utf8(b),
        b.len() <= usize::MAX,
        starts_well_formed(b, st),
    ensures
        spans_well_formed(b, dedent_spans(b, st)),
        forall|i: int|
            0 <= i < dedent_spans(b, st).len() ==> 1 <= (#[trigger] dedent_spans(b, st)[i]).1 <= 2
                && b[dedent_spans(b, st)[i].0 as int] == 32u8 && (dedent_spans(b, st)[i].1 == 2
                ==> b[dedent_spans(b, st)[i].0 + 1] == 32u8) && dedent_spans(b, st)[i].0
                <= st.last(),
    decreases st.len(),
{
    if st.len() > 0 {
        let pre = st.drop_last();
        assert forall|i: int| 0 <= i < pre.len() implies 0 <= #[trigger] pre[i] <= b.len()
            && is_char_boundary(b, pre[i]) by {
            assert(pre[i] == st[i]);
        }
        assert forall|i: int, j: int| 0 <= i < j < pre.len() implies #[trigger] pre[i]
            < #[trigger] pre[j] by {
            assert(pre[i] == st[i] && pre[j] == st[j]);
        }
        assert forall|j: int| 1 <= j < pre.len() implies b[#[trigger] pre[j] - 1] == 10u8 by {
            assert(pre[j] == st[j]);
        }
        lemma_dedent_spans(b, pre);
        let prev = dedent_spans(b, pre);
        let s = st.last();
        let c = leading_spaces(b, s);
        assert(st[st.len() - 1] == s);
        if c > 0 {
            let rs = dedent_spans(b, st);
            assert(rs == prev.push((s as usize, c as usize)));
            lemma_boundary_after_ascii(b, s);
            if c == 2 {
                lemma_boundary_after_ascii(b, s + 1);
            }
            assert forall|i: int| 0 <= i < prev.len() implies (#[trigger] prev[i]).0 + prev[i].1
                <= s by {
                let p = prev[i].0 as int;
                assert(p <= pre.last());
                assert(pre.last() == st[st.len() - 2]);
                assert(st[st.len() - 2] < st[st.len() - 1]);
                assert(b[st[st.len() - 1] - 1] == 10u8);
            }
            assert forall|i: int| 0 <= i < rs.len() implies 1 <= (#[trigger] rs[i]).1 <= 2
                && b[rs[i].0 as int] == 32u8 && (rs[i].1 == 2 ==> b[rs[i].0 + 1] == 32u8)
                && rs[i].0 <= st.last() && rs[i].0 + rs[i].1 <= b.len() && is_char_boundary(
                b,
                rs[i].0 as int,
            ) && is_char_boundary(b, rs[i].0 + rs[i].1) by {
                if i < prev.len() {
                    assert(rs[i] == prev[i]);
                    assert(pre.last() == st[st.len() - 2]);
                    assert(st[st.len() - 2] < st[st.len() - 1]);
                }
            }
            assert forall|i: int, j: int| 0 <= i < j < rs.len() implies (#[trigger] rs[i]).0
                + rs[i].1 <= (#[trigger] rs[j]).0 by {
                assert(rs[i] == prev[i]);
                if j < prev.len() {
                    assert(rs[j] == prev[j]);
                }
            }
        } else {
            assert forall|i: int| 0 <= i < prev.len() implies (#[trigger] prev[i]).0 <= st.last() by {
                assert(pre.last() == st[st.len() - 2]);
                assert(st[st.len() - 2] < st[st.len() - 1]);
            }
        }
    }
}

/// Removing spans from a longer prefix keeps the extra bytes at the end.
proof fn lemma_remove_spans_extend(b: Seq<u8>, rs: Seq<(usize, usize)>, p: int, q: int)
    requires
        0 <= p <= q <= b.len(),
        forall|i: int| 0 <= i < rs.len() ==> (#[trigger] rs[i]).0 + rs[i].1 <= p,
    ensures
        remove_spans(b.take(q), rs) == remove_spans(b.take(p), rs) + b.subrange(p, q),
    decreases rs.len(),
{
    if rs.len() == 0 {
        assert(b.take(q) =~= b.take(p) + b.subrange(p, q));
    } else {
        let r = rs.last();
        assert(rs[rs.len() - 1] == r);
        assert(b.take(q).take(r.0 as int) =~= b.take(r.0 as int));
        assert(b.take(p).take(r.0 as int) =~= b.take(r.0 as int));
        assert(b.take(q).skip(r.0 + r.1) =~= b.take(p).skip(r.0 + r.1) + b.subrange(p, q));
        assert(remove_spans(b.take(q), rs) =~= remove_spans(b.take(p), rs) + b.subrange(p, q));
    }
}

/// Spans that come one after another overlap any offset by at most that
/// offset, and by at most the end of the last span.
pub proof fn lemma_total_overlap_bound(index: int, rs: Seq<(usize, usize)>)
    requires
        index >= 0,
        forall|i: int, j: int| 0 <= i < j < rs.len() ==> (#[trigger] rs[i]).0 + rs[i].1 <= (
        #[trigger] rs[j]).0,
    ensures
        total_overlap(index, rs) <= index,
        rs.len() > 0 ==> total_overlap(index, rs) <= rs.last().0 + rs.last().1,
    decreases rs.len(),
{
    if rs.len() > 0 {
        let pre = rs.drop_last();
        assert forall|i: int, j: int| 0 <= i < j < pre.len() implies (#[trigger] pre[i]).0
            + pre[i].1 <= (#[trigger] pre[j]).0 by {
            assert(pre[i] == rs[i] && pre[j] == rs[j]);
        }
        lemma_total_overlap_bound(index, pre);
        if pre.len() > 0 {
            assert(pre.last() == rs[rs.len() - 2]);
            assert(rs[rs.len() - 2].0 + rs[rs.len() - 2].1 <= rs[rs.len() - 1].0);
        }
    }
}

/// The text `content` without the spans `rs`.
fn remove_spans_at(content: &str, rs: &Vec<(usize, usize)>) -> (r: String)
    requires
        spans_well_formed(content.spec_bytes(), rs@),
    ensures
        encode_utf8(r@) == remove_spans(content.spec_bytes(), rs@),
{
    let ghost b = content.spec_bytes();
    proof {
        encode_utf8_valid_utf8(content@);
        is_char_boundary_start_end_of_seq(b);
    }
    let blen = content.as_bytes().len();
    let mut out = String::new();
    let mut prev: usize = 0;
    let mut k: usize = 0;
    assert(encode_utf8(out@) =~= Seq::<u8>::empty());
    assert(b.take(0) =~= Seq::<u8>::empty());
    while k < rs.len()
        invariant
            0 <= k <= rs.len(),
            b == content.spec_bytes(),
            b.len() == blen,
            valid_utf8(b),
            spans_well_formed(b, rs@),
            prev as int == (if k == 0 {
                0
            } else {
                rs@[k - 1].0 + rs@[k - 1].1
            }),
            0 <= prev <= b.len(),
            is_char_boundary(b, prev as int),
            encode_utf8(out@) == remove_spans(b.take(prev as int), rs@.take(k as int)),
        decreases rs.len() - k,
    {
        let (s, c) = rs[k];
        assert(rs@[k as int] == (s, c));
        if k > 0 {
            assert(rs@[k - 1].0 + rs@[k - 1].1 <= rs@[k as int].0);
        }
        proof {
            lemma_boundary_in_prefix(b, prev as int, s as int);
        }
        let (head, _) = content.split_at(s);
        let (_, piece) = head.split_at(prev);
        assert(piece.spec_bytes() =~= b.subrange(prev as int, s as int));
        let ghost before = out@;
        out.append(piece);
        proof {
            lemma_encode_concat(before, piece@);
            assert forall|i: int| 0 <= i < rs@.take(k as int).len() implies (#[trigger] rs@.take(
                k as int,
            )[i]).0 + rs@.take(k as int)[i].1 <= prev by {
                assert(rs@.take(k as int)[i] == rs@[i]);
                if i < k - 1 {
                    assert(rs@[i].0 + rs@[i].1 <= rs@[k - 1].0);
                }
            }
            lemma_remove_spans_extend(b, rs@.take(k as int), prev as int, s as int);
            let t = rs@.take(k + 1);
            assert(t.drop_last() =~= rs@.take(k as int));
            assert(t.last() == (s, c));
            assert(b.take(s + c).take(s as int) =~= b.take(s as int));
            assert(b.take(s + c).skip(s + c) =~= Seq::<u8>::empty());
            assert(remove_spans(b.take(s + c), t) =~= remove_spans(b.take(s as int), rs@.take(k as int)));
            assert(encode_utf8(out@) =~= remove_spans(b.take(s + c), t));
        }
        prev = s + c;
        k = k + 1;
    }
    let (_, tail) = content.split_at(prev);
    let ghost before = out@;
    out.append(tail);
    proof {
        lemma_encode_concat(before, tail@);
        assert(tail.spec_bytes() =~= b.subrange(prev as int, b.len() as int));
        assert(rs@.take(k as int) =~= rs@);
        assert forall|i: int| 0 <= i < rs@.len() implies (#[trigger] rs@[i]).0 + rs@[i].1 <= prev by {
            if i < k - 1 {
                assert(rs@[i].0 + rs@[i].1 <= rs@[k - 1].0);
            }
        }
        lemma_remove_spans_extend(b, rs@, prev as int, b.len() as int);
        assert(b.take(b.len() as int) =~= b);
    }
    out
}

/// What Shift-Tab does to the text with bytes `b` and the cursor or
/// selection `primary`..`secondary`: nothing when no line of it begins with
/// a space; otherwise the new bytes, with up to two leading spaces removed
/// from each line, and the new `primary` and `secondary`, each moved back by
/// the removed bytes that lay before it, the cursor staying at the same end.
pub open spec fn spec_do_dedent(b: Seq<u8>, primary: int, secondary: int) -> Option<(Seq<u8>, int, int)> {
    let lo = sel_lo(primary, secondary);
    let hi = sel_hi(primary, secondary);
    let rs = dedent_spans(b, spec_line_starts(b, lo, hi));
    if rs.len() == 0 {
        None
    } else {
        let ns = lo - total_overlap(lo, rs);
        let ne = hi - total_overlap(hi, rs);
        if primary <= secondary {
            Some((remove_spans(b, rs), ns, ne))
        } else {
            Some((remove_spans(b, rs), ne, ns))
        }
    }
}

/// Shift-Tab: removes up to two leading spaces from the current line or
/// from every selected line, and says where the cursor and the selection's
/// other end go; `None` when there is nothing to remove.
pub fn do_dedent(content: &str, primary: usize, secondary: usize) -> (r: Option<(String, usize, usize)>)
    requires
        line_starts_ok(
            content.spec_bytes(),
            sel_lo(primary as int, secondary as int),
            sel_hi(primary as int, secondary as int),
        ),
    ensures
        match (r, spec_do_dedent(content.spec_bytes(), primary as int, secondary as int)) {
            (None, None) => true,
            (Some(t), Some(u)) => encode_utf8(t.0@) == u.0 && t.1 == u.1 && t.2 == u.2,
            _ => false,
        },
{
    let ghost b = content.spec_bytes();
    proof {
        encode_utf8_valid_utf8(content@);
    }
    let start = if primary <= secondary {
        primary
    } else {
        secondary
    };
    let end = if primary <= secondary {
        secondary
    } else {
        primary
    };
    let starts = collect_line_starts(content, start, end);
    let ghost st = starts@.map_values(|x: usize| x as int);
    proof {
        lemma_line_starts(b, start as int, end as int);
    }
    let bytes = content.as_bytes();
    let blen = bytes.len();
    assert(b.len() == blen);
    let mut removals: Vec<(usize, usize)> = Vec::new();
    let mut k: usize = 0;
    assert(st.take(0) =~= Seq::<int>::empty());
    while k < starts.len()
        invariant
            0 <= k <= starts.len(),
            bytes@ == b,
            b.len() == blen,
            st == starts@.map_values(|x: usize| x as int),
            removals@ == dedent_spans(b, st.take(k as int)),
        decreases starts.len() - k,
    {
        let ls = starts[k];
        let mut count: usize = 0;
        if ls < bytes.len() && bytes[ls] == 32u8 {
            count = 1;
            if ls + 1 < bytes.len() && bytes[ls + 1] == 32u8 {
                count = 2;
            }
        }
        assert(count == leading_spaces(b, ls as int));
        assert(st.take(k + 1).drop_last() =~= st.take(k as int));
        assert(st.take(k + 1).last() == ls);
        if count > 0 {
            removals.push((ls, count));
        }
        k = k + 1;
    }
    assert(st.take(k as int) =~= st);
    if removals.len() == 0 {
        return None;
    }
    proof {
        lemma_dedent_spans(b, st);
        lemma_total_overlap_bound(start as int, removals@);
        lemma_total_overlap_bound(end as int, removals@);
    }
    assert(spans_fit(removals@));
    let out = remove_spans_at(content, &removals);
    let new_start = adjust_after_removals(start, removals.as_slice());
    let new_end = adjust_after_removals(end, removals.as_slice());
    if primary <= secondary {
        Some((out, new_start, new_end))
    } else {
        Some((out, new_end, new_start))
    }
}

/// The indentation that Enter carries over when the cursor is at offset
/// `cursor` of the text with bytes `b`: the leading whitespace of the text
/// between the last line break before the cursor and the cursor.
pub open spec fn carried_indent(b: Seq<u8>, cursor: int) -> Seq<char> {
    let line = split_newlines(decode_utf8(b.take(cursor))).last();
    line.take(leading_ws(line) as int)
}

/// What Enter inserts at the cursor: a line break, then the indentation.
pub open spec fn enter_insertion(b: Seq<u8>, cursor: int) -> Seq<u8> {
    seq![10u8] + encode_utf8(carried_indent(b, cursor))
}

/// The bytes of a line break.
proof fn lemma_newline()
    ensures
        encode_utf8("\n"@) == seq![10u8],
{
    reveal_strlit("\n");
    let nl = "\n"@;
    assert(nl.len() == 1 && nl[0] == '\n');
    assert((10u32 & 0x7Fu32) as u8 == 10u8) by (bit_vector);
    assert(encode_scalar('\n' as u32) =~= seq![10u8]);
    assert(nl.drop_first() =~= Seq::<char>::empty());
    assert(encode_utf8(nl.drop_first()) =~= Seq::<u8>::empty());
    assert(encode_utf8(nl) =~= seq![10u8]);
}

/// The line the cursor is on in the text with bytes `b`, up to the cursor.
pub open spec fn cursor_line(b: Seq<u8>, cursor: int) -> Seq<char> {
    split_newlines(decode_utf8(b.take(cursor))).last()
}

/// The text with bytes `b` after Enter at `cursor` inserted a line break
/// followed by `indent`.
pub open spec fn entered(b: Seq<u8>, cursor: int, indent: Seq<char>) -> Seq<u8> {
    b.take(cursor) + seq![10u8] + encode_utf8(indent) + b.skip(cursor)
}

/// Enter: asks `get_indent` once for the indentation that follows the line
/// the cursor is on (given that line up to the cursor), inserts a line
/// break and that indentation at the cursor, and says where the cursor
/// goes: past the insertion.
pub fn handle_indent<F: Fn(&str) -> String>(content: &str, cursor: usize, get_indent: F) -> (r: (
    String,
    usize,
))
    requires
        is_char_boundary(content.spec_bytes(), cursor as int),
        forall|line: &str| call_requires(get_indent, (line,)),
    ensures
        exists|line: &str, indent: String|
            {
                &&& line@ == cursor_line(content.spec_bytes(), cursor as int)
                &&& #[trigger] call_ensures(get_indent, (line,), indent)
                &&& encode_utf8(r.0@) == entered(content.spec_bytes(), cursor as int, indent@)
                &&& r.1 == cursor + 1 + encode_utf8(indent@).len()
            },
{
    let ghost b = content.spec_bytes();
    let (head, tail) = content.split_at(cursor);
    proof {
        encode_utf8_decode_utf8(head@);
        assert(head.spec_bytes() =~= b.take(cursor as int));
        assert(tail.spec_bytes() =~= b.skip(cursor as int));
        lemma_newline();
    }
    let last = get_last_line(head);
    let line = last.as_str();
    let indent = get_indent(line);
    let ghost ind = indent;
    let mut out = String::new();
    out.append(head);
    let ghost o1 = out@;
    out.append("\n");
    let ghost o2 = out@;
    out.append(indent.as_str());
    let ghost o3 = out@;
    out.append(tail);
    proof {
        assert(o1 =~= head@);
        lemma_encode_concat(o1, "\n"@);
        lemma_encode_concat(o2, indent@);
        lemma_encode_concat(o3, tail@);
        assert(encode_utf8(out@) =~= entered(b, cursor as int, indent@));
    }
    let total = out.as_str().as_bytes().len();
    let ilen = indent.as_str().as_bytes().len();
    assert(ilen == encode_utf8(indent@).len());
    assert(total == encode_utf8(out@).len());
    proof {
        vstd::utf8::encode_utf8_valid_utf8(content@);
        reveal_with_fuel(is_char_boundary, 1);
    }
    assert(cursor <= b.len());
    assert(b.take(cursor as int).len() == cursor);
    assert(cursor + 1 + ilen <= total);
    assert(line@ == cursor_line(b, cursor as int));
    assert(call_ensures(get_indent, (line,), ind));
    (out, cursor + 1 + ilen)
}

/// Tab or Shift-Tab on the cursor or selection `primary`..`secondary`:
/// Shift-Tab dedents, Tab indents. `None` when Shift-Tab finds nothing to
/// remove.
pub fn handle_tab(content: &str, primary: usize, secondary: usize, shift: bool) -> (r: Option<
    (String, usize, usize),
>)
    requires
        shift ==> line_starts_ok(
            content.spec_bytes(),
            sel_lo(primary as int, secondary as int),
            sel_hi(primary as int, secondary as int),
        ),
        !shift ==> indent_ok(content.spec_bytes(), primary as int, secondary as int),
    ensures
        shift ==> match (r, spec_do_dedent(content.spec_bytes(), primary as int, secondary as int)) {
            (None, None) => true,
            (Some(t), Some(u)) => encode_utf8(t.0@) == u.0 && t.1 == u.1 && t.2 == u.2,
            _ => false,
        },
        !shift ==> (r matches Some(t) && encode_utf8(t.0@) == spec_do_indent(
            content.spec_bytes(),
            primary as int,
            secondary as int,
        ).0 && t.1 == spec_do_indent(content.spec_bytes(), primary as int, secondary as int).1
            && t.2 == spec_do_indent(content.spec_bytes(), primary as int, secondary as int).2),
{
    if shift {
        do_dedent(content, primary, secondary)
    } else {
        Some(do_indent(content, primary, secondary))
    }
}

} // verus!
