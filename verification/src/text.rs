//! Character-level helpers shared by the editor and the help renderer.
//!
//! Text is modelled as a sequence of `char`s (the view of `str` and
//! `String`). The spec functions here describe the std string operations
//! that the rest of the crate relies on: whitespace, trimming, counting and
//! line splitting.
use vstd::prelude::*;

verus! {

/// The Unicode `White_Space` property, as `char::is_whitespace` defines it.
pub open spec fn spec_is_whitespace(c: char) -> bool {
    ||| ('\u{9}' <= c && c <= '\u{d}')
    ||| c == ' '
    ||| c == '\u{85}'
    ||| c == '\u{a0}'
    ||| c == '\u{1680}'
    ||| ('\u{2000}' <= c && c <= '\u{200a}')
    ||| c == '\u{2028}'
    ||| c == '\u{2029}'
    ||| c == '\u{202f}'
    ||| c == '\u{205f}'
    ||| c == '\u{3000}'
}

/// Whether `c` is Unicode whitespace.
pub fn is_whitespace(c: char) -> (r: bool)
    ensures
        r == spec_is_whitespace(c),
{
    ('\u{9}' <= c && c <= '\u{d}') || c == ' ' || c == '\u{85}' || c == '\u{a0}' || c
        == '\u{1680}' || ('\u{2000}' <= c && c <= '\u{200a}') || c == '\u{2028}' || c
        == '\u{2029}' || c == '\u{202f}' || c == '\u{205f}' || c == '\u{3000}'
}

/// Number of whitespace characters at the start of `s`.
pub open spec fn leading_ws(s: Seq<char>) -> nat
    decreases s.len(),
{
    if s.len() == 0 {
        0
    } else if spec_is_whitespace(s[0]) {
        1 + leading_ws(s.drop_first())
    } else {
        0
    }
}

/// Number of whitespace characters at the end of `s`.
pub open spec fn trailing_ws(s: Seq<char>) -> nat
    decreases s.len(),
{
    if s.len() == 0 {
        0
    } else if spec_is_whitespace(s.last()) {
        1 + trailing_ws(s.drop_last())
    } else {
        0
    }
}

/// `str::trim_start`.
pub open spec fn trim_start(s: Seq<char>) -> Seq<char> {
    s.skip(leading_ws(s) as int)
}

/// `str::trim_end`.
pub open spec fn trim_end(s: Seq<char>) -> Seq<char> {
    s.take(s.len() - trailing_ws(s))
}

/// `str::trim`.
pub open spec fn trim(s: Seq<char>) -> Seq<char> {
    trim_end(trim_start(s))
}

/// Number of occurrences of `c` in `s`.
pub open spec fn count_char(s: Seq<char>, c: char) -> nat
    decreases s.len(),
{
    if s.len() == 0 {
        0
    } else {
        count_char(s.drop_last(), c) + if s.last() == c {
            1nat
        } else {
            0nat
        }
    }
}

/// `p` is a prefix of `s`.
pub open spec fn starts_with(s: Seq<char>, p: Seq<char>) -> bool {
    p.len() <= s.len() && s.take(p.len() as int) == p
}

/// Index of the first occurrence of `c` in `s`, if any.
pub open spec fn find_char(s: Seq<char>, c: char) -> Option<nat>
    decreases s.len(),
{
    if s.len() == 0 {
        None
    } else if s[0] == c {
        Some(0)
    } else {
        match find_char(s.drop_first(), c) {
            Some(i) => Some(i + 1),
            None => None,
        }
    }
}

/// The pieces of `s` between `'\n'` characters (`str::split('\n')`); there is
/// always at least one piece.
pub open spec fn split_newlines(s: Seq<char>) -> Seq<Seq<char>>
    decreases s.len(),
{
    if s.len() == 0 {
        seq![Seq::empty()]
    } else {
        let prev = split_newlines(s.drop_last());
        if s.last() == '\n' {
            prev.push(Seq::empty())
        } else {
            prev.update(prev.len() - 1, prev.last().push(s.last()))
        }
    }
}

/// Drops one `'\r'` at the end of `line`, if there is one.
pub open spec fn strip_cr(line: Seq<char>) -> Seq<char> {
    if line.len() > 0 && line.last() == '\r' {
        line.drop_last()
    } else {
        line
    }
}

/// All pieces but the last, each without a `'\r'` just before its `'\n'`.
pub open spec fn ended_lines(pieces: Seq<Seq<char>>) -> Seq<Seq<char>> {
    pieces.drop_last().map_values(|l: Seq<char>| strip_cr(l))
}

/// `str::lines`: the pieces between `'\n'`s, each that was ended by a
/// `'\n'` without a `'\r'` just before it; an empty last piece is not a line.
pub open spec fn lines(s: Seq<char>) -> Seq<Seq<char>> {
    let pieces = split_newlines(s);
    let ended = ended_lines(pieces);
    if pieces.last().len() == 0 {
        ended
    } else {
        ended.push(pieces.last())
    }
}

/// `leading_ws` is the length of the maximal whitespace prefix.
pub proof fn lemma_leading_ws(s: Seq<char>, k: int)
    requires
        0 <= k <= s.len(),
        forall|j: int| 0 <= j < k ==> spec_is_whitespace(#[trigger] s[j]),
        k == s.len() || !spec_is_whitespace(s[k]),
    ensures
        leading_ws(s) == k,
    decreases k,
{
    if k > 0 {
        assert(spec_is_whitespace(s[0]));
        let t = s.drop_first();
        assert forall|j: int| 0 <= j < k - 1 implies spec_is_whitespace(#[trigger] t[j]) by {
            assert(t[j] == s[j + 1]);
        }
        if k - 1 < t.len() {
            assert(t[k - 1] == s[k]);
        }
        lemma_leading_ws(t, k - 1);
    }
}

/// `trailing_ws` is the length of the maximal whitespace suffix.
pub proof fn lemma_trailing_ws(s: Seq<char>, k: int)
    requires
        0 <= k <= s.len(),
        forall|j: int| s.len() - k <= j < s.len() ==> spec_is_whitespace(#[trigger] s[j]),
        k == s.len() || !spec_is_whitespace(s[s.len() - k - 1]),
    ensures
        trailing_ws(s) == k,
    decreases k,
{
    if k > 0 {
        assert(spec_is_whitespace(s[s.len() - 1]));
        let t = s.drop_last();
        assert forall|j: int| t.len() - (k - 1) <= j < t.len() implies spec_is_whitespace(
            #[trigger] t[j],
        ) by {
            assert(t[j] == s[j]);
        }
        if k - 1 < t.len() {
            assert(t[t.len() - (k - 1) - 1] == s[s.len() - k - 1]);
        }
        lemma_trailing_ws(t, k - 1);
    }
}

/// Bounds `(a, b)` such that `v[a..b]` is `v[lo..hi]` without its leading
/// whitespace (`str::trim_start`).
pub fn trim_start_range(v: &Vec<char>, lo: usize, hi: usize) -> (a: usize)
    requires
        lo <= hi <= v.len(),
    ensures
        lo <= a <= hi,
        v@.subrange(a as int, hi as int) == trim_start(v@.subrange(lo as int, hi as int)),
        a - lo == leading_ws(v@.subrange(lo as int, hi as int)),
{
    let mut a = lo;
    while a < hi && is_whitespace(v[a])
        invariant
            lo <= a <= hi <= v.len(),
            forall|j: int| lo <= j < a ==> spec_is_whitespace(#[trigger] v@[j]),
        decreases hi - a,
    {
        a = a + 1;
    }
    let ghost sub = v@.subrange(lo as int, hi as int);
    proof {
        assert forall|j: int| 0 <= j < a - lo implies spec_is_whitespace(#[trigger] sub[j]) by {
            assert(sub[j] == v@[lo + j]);
        }
        if a < hi {
            assert(sub[a - lo] == v@[a as int]);
        }
        lemma_leading_ws(sub, a - lo);
        assert(sub.skip(a - lo) =~= v@.subrange(a as int, hi as int));
    }
    a
}

/// Upper bound `b` such that `v[lo..b]` is `v[lo..hi]` without its trailing
/// whitespace (`str::trim_end`).
pub fn trim_end_range(v: &Vec<char>, lo: usize, hi: usize) -> (b: usize)
    requires
        lo <= hi <= v.len(),
    ensures
        lo <= b <= hi,
        v@.subrange(lo as int, b as int) == trim_end(v@.subrange(lo as int, hi as int)),
        hi - b == trailing_ws(v@.subrange(lo as int, hi as int)),
        forall|j: int| b <= j < hi ==> spec_is_whitespace(#[trigger] v@[j]),
        b > lo ==> !spec_is_whitespace(v@[b - 1]),
{
    let mut b = hi;
    while b > lo && is_whitespace(v[b - 1])
        invariant
            lo <= b <= hi <= v.len(),
            forall|j: int| b <= j < hi ==> spec_is_whitespace(#[trigger] v@[j]),
        decreases b - lo,
    {
        b = b - 1;
    }
    let ghost sub = v@.subrange(lo as int, hi as int);
    proof {
        assert forall|j: int| sub.len() - (hi - b) <= j < sub.len() implies spec_is_whitespace(
            #[trigger] sub[j],
        ) by {
            assert(sub[j] == v@[lo + j]);
        }
        if b > lo {
            assert(sub[sub.len() - (hi - b) - 1] == v@[b - 1]);
        }
        lemma_trailing_ws(sub, hi - b);
        assert(sub.take(sub.len() - (hi - b)) =~= v@.subrange(lo as int, b as int));
    }
    b
}

/// Bounds `(a, b)` such that `v[a..b]` is `v[lo..hi]` trimmed (`str::trim`).
pub fn trim_range(v: &Vec<char>, lo: usize, hi: usize) -> (r: (usize, usize))
    requires
        lo <= hi <= v.len(),
    ensures
        lo <= r.0 <= r.1 <= hi,
        v@.subrange(r.0 as int, r.1 as int) == trim(v@.subrange(lo as int, hi as int)),
{
    let a = trim_start_range(v, lo, hi);
    let b = trim_end_range(v, a, hi);
    (a, b)
}

/// Number of occurrences of `c` in `v[lo..hi]`.
pub fn count_in(v: &Vec<char>, lo: usize, hi: usize, c: char) -> (n: usize)
    requires
        lo <= hi <= v.len(),
    ensures
        n == count_char(v@.subrange(lo as int, hi as int), c),
{
    let mut n: usize = 0;
    let mut i = lo;
    while i < hi
        invariant
            lo <= i <= hi <= v.len(),
            n == count_char(v@.subrange(lo as int, i as int), c),
            n <= i - lo,
        decreases hi - i,
    {
        assert(v@.subrange(lo as int, i + 1).drop_last() =~= v@.subrange(lo as int, i as int));
        if v[i] == c {
            n = n + 1;
        }
        i = i + 1;
    }
    n
}

/// Appends `v[lo..hi]` to `out`.
pub fn push_range(out: &mut Vec<char>, v: &Vec<char>, lo: usize, hi: usize)
    requires
        lo <= hi <= v.len(),
    ensures
        final(out)@ == old(out)@ + v@.subrange(lo as int, hi as int),
{
    let mut i = lo;
    while i < hi
        invariant
            lo <= i <= hi <= v.len(),
            out@ == old(out)@ + v@.subrange(lo as int, i as int),
        decreases hi - i,
    {
        out.push(v[i]);
        assert(old(out)@ + v@.subrange(lo as int, i + 1) =~= old(out)@ + v@.subrange(
            lo as int,
            i as int,
        ) + seq![v@[i as int]]);
        i = i + 1;
    }
}

/// Appends all of `s` to `out`.
pub fn push_all(out: &mut Vec<char>, s: &Vec<char>)
    ensures
        final(out)@ == old(out)@ + s@,
{
    push_range(out, s, 0, s.len());
    assert(s@.subrange(0, s@.len() as int) =~= s@);
}


/// Index of the first occurrence of the non-empty pattern `p` in `s`.
pub open spec fn find_seq(s: Seq<char>, p: Seq<char>) -> Option<nat>
    decreases s.len(),
{
    if starts_with(s, p) {
        Some(0)
    } else if s.len() == 0 {
        None
    } else {
        match find_seq(s.drop_first(), p) {
            Some(i) => Some(i + 1),
            None => None,
        }
    }
}

/// `str::replace`: every leftmost, non-overlapping occurrence of the
/// non-empty pattern `p` in `s` replaced by `r`.
pub open spec fn replace_all(s: Seq<char>, p: Seq<char>, r: Seq<char>) -> Seq<char>
    decreases s.len(),
{
    if p.len() > 0 && starts_with(s, p) {
        r + replace_all(s.skip(p.len() as int), p, r)
    } else if s.len() == 0 {
        s
    } else {
        seq![s[0]] + replace_all(s.drop_first(), p, r)
    }
}

/// A sequence holds no more occurrences of a character than it has
/// characters.
pub proof fn lemma_count_char_le(s: Seq<char>, c: char)
    ensures
        count_char(s, c) <= s.len(),
    decreases s.len(),
{
    if s.len() > 0 {
        lemma_count_char_le(s.drop_last(), c);
    }
}

/// There is always at least one piece.
pub proof fn lemma_split_newlines_len(s: Seq<char>)
    ensures
        split_newlines(s).len() >= 1,
    decreases s.len(),
{
    if s.len() > 0 {
        lemma_split_newlines_len(s.drop_last());
    }
}

/// A found pattern lies inside the sequence.
pub proof fn lemma_find_seq_bound(s: Seq<char>, p: Seq<char>)
    ensures
        find_seq(s, p) matches Some(k) ==> k + p.len() <= s.len() && starts_with(
            s.skip(k as int),
            p,
        ),
    decreases s.len(),
{
    if !starts_with(s, p) && s.len() > 0 {
        lemma_find_seq_bound(s.drop_first(), p);
        if let Some(k) = find_seq(s.drop_first(), p) {
            assert(s.drop_first().skip(k as int) =~= s.skip(k + 1 as int));
        }
    } else if starts_with(s, p) {
        assert(s.skip(0) =~= s);
    }
}

/// A found index lies inside the sequence.
pub proof fn lemma_find_char_bound(s: Seq<char>, c: char)
    ensures
        find_char(s, c) matches Some(k) ==> k < s.len() && s[k as int] == c,
    decreases s.len(),
{
    if s.len() > 0 && s[0] != c {
        lemma_find_char_bound(s.drop_first(), c);
    }
}

/// `find_char` is the first index holding `c`.
pub proof fn lemma_find_char(s: Seq<char>, c: char, k: int)
    requires
        0 <= k <= s.len(),
        forall|j: int| 0 <= j < k ==> #[trigger] s[j] != c,
        k == s.len() || s[k] == c,
    ensures
        find_char(s, c) == if k < s.len() {
            Some(k as nat)
        } else {
            None::<nat>
        },
    decreases k,
{
    if k > 0 {
        let t = s.drop_first();
        assert(s[0] != c);
        assert forall|j: int| 0 <= j < k - 1 implies #[trigger] t[j] != c by {
            assert(t[j] == s[j + 1]);
        }
        if k < s.len() {
            assert(t[k - 1] == s[k]);
        }
        lemma_find_char(t, c, k - 1);
    }
}

/// `find_seq` is the first index at which `p` starts.
pub proof fn lemma_find_seq(s: Seq<char>, p: Seq<char>, k: int)
    requires
        p.len() > 0,
        0 <= k <= s.len(),
        forall|j: int| 0 <= j < k ==> !starts_with(#[trigger] s.skip(j), p),
        k == s.len() || starts_with(s.skip(k), p),
    ensures
        find_seq(s, p) == if k == s.len() && !starts_with(s.skip(k), p) {
            None::<nat>
        } else {
            Some(k as nat)
        },
    decreases k,
{
    assert(s.skip(0) =~= s);
    if k > 0 {
        let t = s.drop_first();
        assert(!starts_with(s.skip(0), p));
        assert forall|j: int| 0 <= j < k - 1 implies !starts_with(#[trigger] t.skip(j), p) by {
            assert(t.skip(j) =~= s.skip(j + 1));
        }
        assert(t.skip(k - 1) =~= s.skip(k));
        lemma_find_seq(t, p, k - 1);
    } else if k == s.len() {
        assert(s.len() == 0);
        assert(!starts_with(s, p));
    }
}

/// Position of the first `c` in `v[lo..hi]`, as an index into `v`.
pub fn find_in(v: &Vec<char>, lo: usize, hi: usize, c: char) -> (r: Option<usize>)
    requires
        lo <= hi <= v.len(),
    ensures
        match r {
            Some(i) => lo <= i < hi && find_char(v@.subrange(lo as int, hi as int), c) == Some(
                (i - lo) as nat,
            ),
            None => find_char(v@.subrange(lo as int, hi as int), c) is None,
        },
{
    let mut i = lo;
    while i < hi && v[i] != c
        invariant
            lo <= i <= hi <= v.len(),
            forall|j: int| lo <= j < i ==> #[trigger] v@[j] != c,
        decreases hi - i,
    {
        i = i + 1;
    }
    let ghost sub = v@.subrange(lo as int, hi as int);
    proof {
        assert forall|j: int| 0 <= j < i - lo implies #[trigger] sub[j] != c by {
            assert(sub[j] == v@[lo + j]);
        }
        if i < hi {
            assert(sub[i - lo] == v@[i as int]);
        }
        lemma_find_char(sub, c, i - lo);
    }
    if i < hi {
        Some(i)
    } else {
        None
    }
}

/// Whether `p` occurs in `v` starting at index `i`.
pub fn matches_at(v: &Vec<char>, i: usize, hi: usize, p: &Vec<char>) -> (r: bool)
    requires
        i <= hi <= v.len(),
    ensures
        r == starts_with(v@.subrange(i as int, hi as int), p@),
{
    if p.len() > hi - i {
        return false;
    }
    let mut k: usize = 0;
    while k < p.len()
        invariant
            p.len() <= hi - i,
            i <= hi <= v.len(),
            0 <= k <= p.len(),
            forall|j: int| 0 <= j < k ==> v@[i + j] == #[trigger] p@[j],
        decreases p.len() - k,
    {
        if v[i + k] != p[k] {
            assert(v@.subrange(i as int, hi as int).take(p.len() as int)[k as int] == v@[i + k]);
            return false;
        }
        k = k + 1;
    }
    assert(v@.subrange(i as int, hi as int).take(p.len() as int) =~= p@);
    true
}

/// Position of the first occurrence of the non-empty `p` in `v[lo..hi]`,
/// as an index into `v`.
pub fn find_pat_in(v: &Vec<char>, lo: usize, hi: usize, p: &Vec<char>) -> (r: Option<usize>)
    requires
        lo <= hi <= v.len(),
        p.len() > 0,
    ensures
        match r {
            Some(i) => lo <= i && i + p.len() <= hi && find_seq(
                v@.subrange(lo as int, hi as int),
                p@,
            ) == Some((i - lo) as nat),
            None => find_seq(v@.subrange(lo as int, hi as int), p@) is None,
        },
{
    let ghost sub = v@.subrange(lo as int, hi as int);
    let mut i = lo;
    while i < hi && !matches_at(v, i, hi, p)
        invariant
            lo <= i <= hi <= v.len(),
            sub == v@.subrange(lo as int, hi as int),
            forall|j: int| 0 <= j < i - lo ==> !starts_with(#[trigger] sub.skip(j), p@),
        decreases hi - i,
    {
        assert(sub.skip(i - lo) =~= v@.subrange(i as int, hi as int));
        i = i + 1;
    }
    assert(sub.skip(i - lo) =~= v@.subrange(i as int, hi as int));
    proof {
        lemma_find_seq(sub, p@, i - lo);
    }
    if i < hi {
        Some(i)
    } else if matches_at(v, i, hi, p) {
        Some(i)
    } else {
        None
    }
}

/// `str::replace` on character vectors.
pub fn replace_chars(s: &Vec<char>, p: &Vec<char>, r: &Vec<char>) -> (out: Vec<char>)
    requires
        p.len() > 0,
    ensures
        out@ == replace_all(s@, p@, r@),
{
    let mut out: Vec<char> = Vec::new();
    let mut i: usize = 0;
    assert(s@.skip(0) =~= s@);
    assert(out@ + replace_all(s@, p@, r@) =~= replace_all(s@, p@, r@));
    while i < s.len()
        invariant
            0 <= i <= s.len(),
            p.len() > 0,
            out@ + replace_all(s@.skip(i as int), p@, r@) == replace_all(s@, p@, r@),
        decreases s.len() - i,
    {
        let ghost rest = s@.skip(i as int);
        if matches_at(s, i, s.len(), p) {
            assert(s@.subrange(i as int, s.len() as int) =~= rest);
            assert(rest.skip(p.len() as int) =~= s@.skip(i + p.len()));
            push_all(&mut out, r);
            i = i + p.len();
        } else {
            assert(s@.subrange(i as int, s.len() as int) =~= rest);
            assert(rest.drop_first() =~= s@.skip(i + 1));
            out.push(s[i]);
            i = i + 1;
        }
    }
    assert(s@.skip(s.len() as int) =~= Seq::<char>::empty());
    out
}

/// Whether `v[lo..hi]` is exactly `name`.
pub fn window_is(v: &Vec<char>, lo: usize, hi: usize, name: &[char]) -> (r: bool)
    requires
        lo <= hi <= v.len(),
    ensures
        r == (v@.subrange(lo as int, hi as int) == name@),
{
    if hi - lo != name.len() {
        return false;
    }
    let mut k: usize = 0;
    while k < name.len()
        invariant
            hi - lo == name.len(),
            lo <= hi <= v.len(),
            0 <= k <= name.len(),
            forall|j: int| 0 <= j < k ==> v@[lo + j] == #[trigger] name@[j],
        decreases name.len() - k,
    {
        if v[lo + k] != name[k] {
            assert(v@.subrange(lo as int, hi as int)[k as int] == v@[lo + k]);
            return false;
        }
        k = k + 1;
    }
    assert(v@.subrange(lo as int, hi as int) =~= name@);
    true
}

/// `s` holds whitespace only.
pub open spec fn is_blank(s: Seq<char>) -> bool {
    forall|j: int| 0 <= j < s.len() ==> spec_is_whitespace(#[trigger] s[j])
}

/// Start and end index of each piece of `split_newlines(v)`, in order.
pub fn line_bounds(v: &Vec<char>) -> (b: Vec<(usize, usize)>)
    ensures
        b.len() == split_newlines(v@).len(),
        forall|k: int|
            0 <= k < b.len() ==> {
                &&& #[trigger] b@[k].0 <= b@[k].1 <= v.len()
                &&& v@.subrange(b@[k].0 as int, b@[k].1 as int) == split_newlines(v@)[k]
            },
        forall|k: int| 0 <= k < b.len() - 1 ==> #[trigger] b@[k].1 < v.len(),
{
    let mut b: Vec<(usize, usize)> = Vec::new();
    let mut cur: usize = 0;
    let mut i: usize = 0;
    assert(v@.take(0) =~= Seq::<char>::empty());
    assert(v@.subrange(0, 0) =~= Seq::<char>::empty());
    while i < v.len()
        invariant
            0 <= cur <= i <= v.len(),
            split_newlines(v@.take(i as int)).len() == b.len() + 1,
            forall|k: int|
                0 <= k < b.len() ==> {
                    &&& #[trigger] b@[k].0 <= b@[k].1 <= v.len()
                    &&& v@.subrange(b@[k].0 as int, b@[k].1 as int) == split_newlines(
                        v@.take(i as int),
                    )[k]
                },
            split_newlines(v@.take(i as int)).last() == v@.subrange(cur as int, i as int),
            forall|k: int| 0 <= k < b.len() ==> #[trigger] b@[k].1 < v.len(),
        decreases v.len() - i,
    {
        let ghost prev = split_newlines(v@.take(i as int));
        assert(v@.take(i + 1).drop_last() =~= v@.take(i as int));
        assert(v@.take(i + 1).last() == v@[i as int]);
        let ghost old_b = b@;
        if v[i] == '\n' {
            b.push((cur, i));
            cur = i + 1;
            assert(v@.subrange(cur as int, i + 1) =~= Seq::<char>::empty());
        } else {
            assert(v@.subrange(cur as int, i + 1) =~= v@.subrange(cur as int, i as int).push(
                v@[i as int],
            ));
        }
        assert forall|k: int| 0 <= k < old_b.len() implies split_newlines(v@.take(i + 1))[k]
            == prev[k] by {}
        assert forall|k: int| 0 <= k < old_b.len() implies #[trigger] b@[k] == old_b[k] by {}
        i = i + 1;
    }
    assert(v@.take(v.len() as int) =~= v@);
    b.push((cur, v.len()));
    b
}

/// Start and end index of each line of `lines(v)`, in order.
pub fn lines_bounds(v: &Vec<char>) -> (b: Vec<(usize, usize)>)
    ensures
        b.len() == lines(v@).len(),
        forall|k: int|
            0 <= k < b.len() ==> {
                &&& #[trigger] b@[k].0 <= b@[k].1 <= v.len()
                &&& v@.subrange(b@[k].0 as int, b@[k].1 as int) == lines(v@)[k]
            },
        forall|k: int| 0 <= k < b.len() - 1 ==> #[trigger] b@[k].1 < v.len(),
{
    let pieces = line_bounds(v);
    let ghost sp = split_newlines(v@);
    proof {
        lemma_split_newlines_len(v@);
    }
    let ghost ended = ended_lines(sp);
    let mut b: Vec<(usize, usize)> = Vec::new();
    let mut k: usize = 0;
    while k < pieces.len() - 1
        invariant
            pieces.len() == sp.len(),
            sp == split_newlines(v@),
            ended == ended_lines(sp),
            forall|j: int|
                0 <= j < pieces.len() ==> {
                    &&& #[trigger] pieces@[j].0 <= pieces@[j].1 <= v.len()
                    &&& v@.subrange(pieces@[j].0 as int, pieces@[j].1 as int) == sp[j]
                },
            forall|j: int| 0 <= j < pieces.len() - 1 ==> #[trigger] pieces@[j].1 < v.len(),
            0 <= k <= pieces.len() - 1,
            pieces.len() >= 1,
            b.len() == k,
            forall|j: int|
                0 <= j < k ==> {
                    &&& #[trigger] b@[j].0 <= b@[j].1 <= v.len()
                    &&& v@.subrange(b@[j].0 as int, b@[j].1 as int) == ended[j]
                    &&& b@[j].1 < v.len()
                },
        decreases pieces.len() - k,
    {
        let (lo, hi) = pieces[k];
        assert(pieces@[k as int].0 <= pieces@[k as int].1 <= v.len());
        assert(pieces@[k as int].1 < v.len());
        let ghost piece = sp[k as int];
        if lo < hi && v[hi - 1] == '\r' {
            assert(piece.last() == v@[hi - 1]);
            assert(piece.drop_last() =~= v@.subrange(lo as int, hi - 1));
            b.push((lo, hi - 1));
        } else {
            if lo < hi {
                assert(piece.last() == v@[hi - 1]);
            }
            b.push((lo, hi));
        }
        k = k + 1;
    }
    let (lo, hi) = pieces[pieces.len() - 1];
    assert(pieces@[pieces.len() - 1].0 <= pieces@[pieces.len() - 1].1 <= v.len());
    assert(sp.last() == sp[sp.len() - 1]);
    assert(ended.len() == k);
    let ghost before = b@;
    if lo < hi {
        b.push((lo, hi));
    }
    assert forall|j: int| 0 <= j < b.len() - 1 implies #[trigger] b@[j].1 < v.len() by {
        assert(b@[j] == before[j]);
        assert(before[j].0 <= before[j].1);
    }
    b
}

/// The characters of `s`, in order.
pub fn chars_of(s: &str) -> (v: Vec<char>)
    ensures
        v@ == s@,
{
    let mut v: Vec<char> = Vec::new();
    for c in it: s.chars()
        invariant
            v@ == it.seq().take(it.index() as int),
    {
        v.push(c);
    }
    v
}

/// The string made of the characters of `v`: `Iterator::collect` into a
/// `String`, which std documents as concatenating the items in order.
#[verifier::external_body]
pub(crate) fn string_of(v: &Vec<char>) -> (s: String)
    ensures
        s@ == v@,
{
    v.iter().collect()
}

} // verus!
