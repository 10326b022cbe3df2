//! Plain-text rendering of the raw HTML fragments in the Pikchr
//! documentation, and the anchor ids those fragments declare.
use vstd::prelude::*;
use crate::entities::{decode, decode_chars};
use crate::text::{
    chars_of, find_char, find_in, find_pat_in, find_seq, is_blank, is_whitespace, lemma_find_char_bound,
    lemma_find_seq_bound, line_bounds, push_range, spec_is_whitespace, split_newlines, string_of, trim,
    trim_end, trim_end_range, trim_range, trim_start, trim_start_range, window_is, trailing_ws,
};

verus! {

/// `s` without its leading `/` characters (`trim_start_matches('/')`).
pub open spec fn drop_leading_slashes(s: Seq<char>) -> Seq<char>
    decreases s.len(),
{
    if s.len() > 0 && s[0] == '/' {
        drop_leading_slashes(s.drop_first())
    } else {
        s
    }
}

/// Length of the run of non-whitespace characters that `s` starts with.
pub open spec fn word_len(s: Seq<char>) -> nat
    decreases s.len(),
{
    if s.len() == 0 || spec_is_whitespace(s[0]) {
        0
    } else {
        1 + word_len(s.drop_first())
    }
}

/// The element name of the tag text `tag` (what lies between `<` and `>`):
/// its first word once leading `/`s are gone, or empty.
pub open spec fn tag_name(tag: Seq<char>) -> Seq<char> {
    let t = trim_start(drop_leading_slashes(tag));
    t.take(word_len(t) as int)
}

/// Tags that start a new line of text.
pub open spec fn is_line_tag(name: Seq<char>) -> bool {
    ||| name == seq!['b', 'l', 'o', 'c', 'k', 'q', 'u', 'o', 't', 'e']
    ||| name == seq!['t', 'a', 'b', 'l', 'e']
    ||| name == seq!['t', 'r']
}

/// Tags that start a table cell.
pub open spec fn is_cell_tag(name: Seq<char>) -> bool {
    name == seq!['t', 'd'] || name == seq!['t', 'h']
}

/// What the tag `tag` does to the text `out` produced so far: row and block
/// tags end a non-blank line that is not yet ended; cell tags put ` | `
/// after text that does not already end (ignoring trailing whitespace) in a
/// `|`; every other tag is dropped.
pub open spec fn tag_effect(out: Seq<char>, tag: Seq<char>) -> Seq<char> {
    let name = tag_name(tag);
    if is_line_tag(name) {
        if !(out.len() > 0 && out.last() == '\n') && !is_blank(out) {
            out.push('\n')
        } else {
            out
        }
    } else if is_cell_tag(name) {
        let t = trim_end(out);
        if t.len() > 0 && t.last() != '|' {
            out + seq![' ', '|', ' ']
        } else {
            out
        }
    } else {
        out
    }
}

/// The tag text after a `<` (up to the next `>`, or to the end) and what
/// follows it.
pub open spec fn split_tag(body: Seq<char>) -> (Seq<char>, Seq<char>) {
    match find_char(body, '>') {
        Some(k) => (body.take(k as int), body.skip(k + 1 as int)),
        None => (body, Seq::empty()),
    }
}

/// `s` appended to `out` with its tags applied and removed.
pub open spec fn strip_tags(s: Seq<char>, out: Seq<char>) -> Seq<char>
    decreases s.len(),
{
    if s.len() == 0 {
        out
    } else if s[0] != '<' {
        strip_tags(s.drop_first(), out.push(s[0]))
    } else {
        let (tag, rest) = split_tag(s.drop_first());
        proof {
            lemma_find_char_bound(s.drop_first(), '>');
        }
        strip_tags(rest, tag_effect(out, tag))
    }
}

/// The trimmed non-blank pieces of `pieces`, joined by `'\n'`.
pub open spec fn join_nonblank(pieces: Seq<Seq<char>>) -> Seq<char>
    decreases pieces.len(),
{
    if pieces.len() == 0 {
        Seq::empty()
    } else {
        let prev = join_nonblank(pieces.drop_last());
        let t = trim(pieces.last());
        if t.len() == 0 {
            prev
        } else if prev.len() == 0 {
            t
        } else {
            prev + seq!['\n'] + t
        }
    }
}

/// The readable text of an HTML fragment: tags removed (rows and cells laid
/// out as lines and ` | `-separated columns), character references
/// decoded, and the non-blank lines trimmed and joined by `'\n'`.
pub open spec fn html_text(s: Seq<char>) -> Seq<char> {
    join_nonblank(split_newlines(decode(strip_tags(s, Seq::empty()))))
}

/// The `"`-quoted values of the `id="..."` attributes in `s`, in order; an
/// unterminated value ends the scan.
pub open spec fn anchor_ids(s: Seq<char>) -> Seq<Seq<char>>
    decreases s.len(),
{
    match find_seq(s, seq!['i', 'd', '=', '"']) {
        Some(p) => {
            let after = s.skip(p + 4 as int);
            proof {
                lemma_find_seq_bound(s, seq!['i', 'd', '=', '"']);
                lemma_find_char_bound(after, '"');
            }
            match find_char(after, '"') {
                Some(e) => seq![after.take(e as int)] + anchor_ids(after.skip(e + 1 as int)),
                None => Seq::empty(),
            }
        },
        None => Seq::empty(),
    }
}

/// What a tag found at `lo..hi` in `v` does to `out`.
fn apply_tag(out: &mut Vec<char>, v: &Vec<char>, lo: usize, hi: usize)
    requires
        lo <= hi <= v.len(),
    ensures
        final(out)@ == tag_effect(old(out)@, v@.subrange(lo as int, hi as int)),
{
    let ghost tag = v@.subrange(lo as int, hi as int);
    let mut a = lo;
    while a < hi && v[a] == '/'
        invariant
            lo <= a <= hi <= v.len(),
            drop_leading_slashes(tag) == drop_leading_slashes(v@.subrange(a as int, hi as int)),
        decreases hi - a,
    {
        assert(v@.subrange(a as int, hi as int).drop_first() =~= v@.subrange(a + 1, hi as int));
        a = a + 1;
    }
    assert(drop_leading_slashes(v@.subrange(a as int, hi as int)) == v@.subrange(
        a as int,
        hi as int,
    ));
    let s = trim_start_range(v, a, hi);
    let mut w = s;
    while w < hi && !is_whitespace(v[w])
        invariant
            s <= w <= hi <= v.len(),
            word_len(v@.subrange(s as int, hi as int)) == (w - s) + word_len(
                v@.subrange(w as int, hi as int),
            ),
        decreases hi - w,
    {
        assert(v@.subrange(w as int, hi as int).drop_first() =~= v@.subrange(w + 1, hi as int));
        w = w + 1;
    }
    assert(word_len(v@.subrange(w as int, hi as int)) == 0);
    assert(v@.subrange(s as int, hi as int).take(w - s) =~= v@.subrange(s as int, w as int));
    let line_tag = window_is(v, s, w, &['b', 'l', 'o', 'c', 'k', 'q', 'u', 'o', 't', 'e'])
        || window_is(v, s, w, &['t', 'a', 'b', 'l', 'e']) || window_is(v, s, w, &['t', 'r']);
    let cell_tag = window_is(v, s, w, &['t', 'd']) || window_is(v, s, w, &['t', 'h']);
    if line_tag {
        let ends_nl = out.len() > 0 && out[out.len() - 1] == '\n';
        let b = trim_end_range(out, 0, out.len());
        assert(out@.subrange(0, out@.len() as int) =~= out@);
        if !ends_nl && b > 0 {
            out.push('\n');
        }
    } else if cell_tag {
        let b = trim_end_range(out, 0, out.len());
        assert(out@.subrange(0, out@.len() as int) =~= out@);
        if b > 0 && out[b - 1] != '|' {
            out.push(' ');
            out.push('|');
            out.push(' ');
            assert(old(out)@ + seq![' ', '|', ' '] =~= out@);
        }
    }
}

/// The trimmed non-blank lines of `d`, joined by `'\n'`.
fn join_nonblank_lines(d: &Vec<char>) -> (r: Vec<char>)
    ensures
        r@ == join_nonblank(split_newlines(d@)),
{
    let bounds = line_bounds(d);
    let ghost pieces = split_newlines(d@);
    let mut r: Vec<char> = Vec::new();
    let mut k: usize = 0;
    assert(pieces.take(0) =~= Seq::<Seq<char>>::empty());
    while k < bounds.len()
        invariant
            0 <= k <= bounds.len(),
            bounds.len() == pieces.len(),
            pieces == split_newlines(d@),
            forall|j: int|
                0 <= j < bounds.len() ==> {
                    &&& #[trigger] bounds@[j].0 <= bounds@[j].1 <= d.len()
                    &&& d@.subrange(bounds@[j].0 as int, bounds@[j].1 as int) == pieces[j]
                },
            r@ == join_nonblank(pieces.take(k as int)),
        decreases bounds.len() - k,
    {
        let (lo, hi) = bounds[k];
        assert(bounds@[k as int].0 <= bounds@[k as int].1 <= d.len());
        let (a, b) = trim_range(d, lo, hi);
        assert(pieces.take(k + 1).drop_last() =~= pieces.take(k as int));
        assert(pieces.take(k + 1).last() == pieces[k as int]);
        if a < b {
            if r.len() > 0 {
                r.push('\n');
            }
            push_range(&mut r, d, a, b);
        }
        k = k + 1;
    }
    assert(pieces.take(bounds.len() as int) =~= pieces);
    r
}

/// Readable text for an HTML fragment of the documentation: tags are
/// dropped, table rows become lines and cells are separated by ` | `,
/// character references are decoded, and blank lines are removed.
pub fn html_to_text(input: &str) -> (out: String)
    ensures
        out@ == html_text(input@),
{
    let v = chars_of(input);
    let n = v.len();
    let mut out: Vec<char> = Vec::new();
    let mut i: usize = 0;
    assert(v@.skip(0) =~= v@);
    while i < n
        invariant
            n == v.len(),
            0 <= i <= n,
            strip_tags(v@.skip(i as int), out@) == strip_tags(v@, Seq::empty()),
        decreases n - i,
    {
        let ghost rest = v@.skip(i as int);
        if v[i] != '<' {
            assert(rest.drop_first() =~= v@.skip(i + 1));
            out.push(v[i]);
            i = i + 1;
        } else {
            let ghost body = rest.drop_first();
            assert(body =~= v@.subrange(i + 1, n as int));
            match find_in(&v, i + 1, n, '>') {
                Some(k) => {
                    assert(body.take(k - (i + 1)) =~= v@.subrange(i + 1, k as int));
                    assert(body.skip(k - i) =~= v@.skip(k + 1));
                    apply_tag(&mut out, &v, i + 1, k);
                    i = k + 1;
                },
                None => {
                    assert(v@.skip(n as int) =~= Seq::<char>::empty());
                    apply_tag(&mut out, &v, i + 1, n);
                    i = n;
                },
            }
        }
    }
    assert(v@.skip(n as int) =~= Seq::<char>::empty());
    let decoded = decode_chars(&out);
    let joined = join_nonblank_lines(&decoded);
    string_of(&joined)
}

/// The values of the `id="..."` attributes in `input`, in order.
pub fn extract_anchor_ids(input: &str) -> (ids: Vec<String>)
    ensures
        ids@.map_values(|x: String| x@) == anchor_ids(input@),
{
    let v = chars_of(input);
    let n = v.len();
    let pat: Vec<char> = vec!['i', 'd', '=', '"'];
    assert(pat@ =~= seq!['i', 'd', '=', '"']);
    let mut ids: Vec<String> = Vec::new();
    let mut i: usize = 0;
    assert(v@.skip(0) =~= v@);
    assert(ids@.map_values(|x: String| x@) + anchor_ids(v@) =~= anchor_ids(v@));
    while i < n
        invariant
            n == v.len(),
            0 <= i <= n,
            pat@ == seq!['i', 'd', '=', '"'],
            ids@.map_values(|x: String| x@) + anchor_ids(v@.skip(i as int)) == anchor_ids(v@),
        ensures
            i == n,
            ids@.map_values(|x: String| x@) + anchor_ids(v@.skip(i as int)) == anchor_ids(v@),
        decreases n - i,
    {
        let ghost rest = v@.skip(i as int);
        assert(rest =~= v@.subrange(i as int, n as int));
        match find_pat_in(&v, i, n, &pat) {
            None => {
                assert(anchor_ids(rest) =~= Seq::<Seq<char>>::empty());
                i = n;
                assert(ids@.map_values(|x: String| x@) + anchor_ids(v@.skip(n as int)) =~= ids@.map_values(|x: String| x@));
                break;
            },
            Some(p) => {
                let start = p + 4;
                let ghost after = rest.skip(start - i);
                assert(after =~= v@.subrange(start as int, n as int));
                match find_in(&v, start, n, '"') {
                    None => {
                        assert(anchor_ids(rest) =~= Seq::<Seq<char>>::empty());
                        i = n;
                        assert(ids@.map_values(|x: String| x@) + anchor_ids(v@.skip(n as int)) =~= ids@.map_values(|x: String| x@));
                        break;
                    },
                    Some(e) => {
                        let mut word: Vec<char> = Vec::new();
                        push_range(&mut word, &v, start, e);
                        let id = string_of(&word);
                        assert(after.take(e - start) =~= v@.subrange(start as int, e as int));
                        assert(after.skip(e - start + 1) =~= v@.skip(e + 1));
                        let ghost before = ids@.map_values(|x: String| x@);
                        ids.push(id);
                        assert(ids@.map_values(|x: String| x@) =~= before.push(id@));
                        i = e + 1;
                    },
                }
            },
        }
    }
    let ghost empty = v@.skip(n as int);
    assert(empty =~= Seq::<char>::empty());
    assert(!crate::text::starts_with(empty, seq!['i', 'd', '=', '"']));
    assert(anchor_ids(empty) =~= Seq::<Seq<char>>::empty());
    assert(ids@.map_values(|x: String| x@) + anchor_ids(empty) =~= ids@.map_values(|x: String| x@));
    ids
}


/// The name of a bare tag `td` or `th` is itself.
proof fn lemma_cell_names()
    ensures
        tag_name(seq!['t', 'd']) == seq!['t', 'd'],
        tag_name(seq!['t', 'h']) == seq!['t', 'h'],
{
    let d = seq!['t', 'd'];
    let h = seq!['t', 'h'];
    assert(drop_leading_slashes(d) == d);
    assert(drop_leading_slashes(h) == h);
    assert(!spec_is_whitespace('t'));
    assert(!spec_is_whitespace('d'));
    assert(!spec_is_whitespace('h'));
    assert(trim_start(d) =~= d);
    assert(trim_start(h) =~= h);
    assert(d.drop_first().drop_first().len() == 0);
    assert(h.drop_first().drop_first().len() == 0);
    assert(d.drop_first()[0] == 'd');
    assert(h.drop_first()[0] == 'h');
    assert(word_len(d.drop_first().drop_first()) == 0);
    assert(word_len(h.drop_first().drop_first()) == 0);
    assert(!spec_is_whitespace(d.drop_first()[0]));
    assert(!spec_is_whitespace(h.drop_first()[0]));
    assert(word_len(d.drop_first()) == 1);
    assert(word_len(h.drop_first()) == 1);
    assert(word_len(d) == 2);
    assert(word_len(h) == 2);
    assert(d.take(2) =~= d);
    assert(h.take(2) =~= h);
}

/// A table cell, header (`<th>`) or data (`<td>`), is set off from the text
/// before it by ` | ` when that text ends in something other than blanks
/// or a `|`; otherwise the cell adds nothing. Both kinds of cell do exactly
/// the same.
pub proof fn law_cells_are_separated(out: Seq<char>, rest: Seq<char>)
    ensures
        tag_effect(out, seq!['t', 'h']) == tag_effect(out, seq!['t', 'd']),
        out.len() > 0 && !spec_is_whitespace(out.last()) && out.last() != '|' ==> {
            &&& strip_tags(seq!['<', 't', 'd', '>'] + rest, out) == strip_tags(rest, out + seq![' ', '|', ' '])
            &&& strip_tags(seq!['<', 't', 'h', '>'] + rest, out) == strip_tags(rest, out + seq![' ', '|', ' '])
        },
        out.len() > 0 && out.last() == '|' ==> {
            &&& strip_tags(seq!['<', 't', 'd', '>'] + rest, out) == strip_tags(rest, out)
            &&& strip_tags(seq!['<', 't', 'h', '>'] + rest, out) == strip_tags(rest, out)
        },
{
    lemma_cell_names();
    let d = seq!['t', 'd'];
    let h = seq!['t', 'h'];
    assert(!is_line_tag(d));
    assert(!is_line_tag(h));
    assert(is_cell_tag(d) && is_cell_tag(h));
    if out.len() > 0 && (!spec_is_whitespace(out.last()) || out.last() == '|') {
        if out.last() == '|' {
            assert(!spec_is_whitespace('|'));
        }
        assert(trailing_ws(out) == 0);
        assert(trim_end(out) =~= out);
    }
    let sd = seq!['<', 't', 'd', '>'] + rest;
    let sh = seq!['<', 't', 'h', '>'] + rest;
    assert(sd.drop_first() =~= d + seq!['>'] + rest);
    assert(sh.drop_first() =~= h + seq!['>'] + rest);
    crate::text::lemma_find_char(sd.drop_first(), '>', 2);
    crate::text::lemma_find_char(sh.drop_first(), '>', 2);
    assert(sd.drop_first().take(2) =~= d);
    assert(sh.drop_first().take(2) =~= h);
    assert(sd.drop_first().skip(3) =~= rest);
    assert(sh.drop_first().skip(3) =~= rest);
}


/// A table row (`<tr>`) starts a new line: after text that is not blank and
/// does not already end a line, the row's text comes after a `'\n'`; after
/// a line break it adds nothing.
pub proof fn law_rows_start_lines(out: Seq<char>, rest: Seq<char>)
    ensures
        out.len() > 0 && !spec_is_whitespace(out.last()) ==> strip_tags(seq!['<', 't', 'r', '>'] + rest, out)
            == strip_tags(rest, out.push('\n')),
        out.len() > 0 && out.last() == '\n' ==> strip_tags(seq!['<', 't', 'r', '>'] + rest, out)
            == strip_tags(rest, out),
{
    let n = seq!['t', 'r'];
    assert(drop_leading_slashes(n) == n);
    assert(!spec_is_whitespace('t'));
    assert(!spec_is_whitespace('r'));
    assert(trim_start(n) =~= n);
    assert(n.drop_first().drop_first().len() == 0);
    assert(word_len(n.drop_first().drop_first()) == 0);
    assert(!spec_is_whitespace(n.drop_first()[0]));
    assert(word_len(n.drop_first()) == 1);
    assert(word_len(n) == 2);
    assert(n.take(2) =~= n);
    assert(tag_name(n) == n);
    assert(is_line_tag(n));
    if out.len() > 0 && !spec_is_whitespace(out.last()) {
        assert(!is_blank(out)) by {
            assert(!spec_is_whitespace(out[out.len() - 1]));
        }
    }
    let sr = seq!['<', 't', 'r', '>'] + rest;
    assert(sr.drop_first() =~= n + seq!['>'] + rest);
    crate::text::lemma_find_char(sr.drop_first(), '>', 2);
    assert(sr.drop_first().take(2) =~= n);
    assert(sr.drop_first().skip(3) =~= rest);
}

} // verus!
