//! HTML character references (`&rarr;`, `&#9654;`, `&#x2192;`, ...) as they
//! appear in the bundled Pikchr documentation.
use vstd::prelude::*;
use crate::text::{find_char, find_in, chars_of, string_of, lemma_find_char_bound, lemma_find_char, window_is};

verus! {

/// The named character references that the documentation uses, each with
/// the character it stands for.
pub open spec fn named_entity(b: Seq<char>) -> Option<char> {
    if b == seq!['a', 'm', 'p'] {
        Some('&')
    } else if b == seq!['l', 't'] {
        Some('<')
    } else if b == seq!['g', 't'] {
        Some('>')
    } else if b == seq!['q', 'u', 'o', 't'] {
        Some('"')
    } else if b == seq!['a', 'p', 'o', 's'] {
        Some('\'')
    } else if b == seq!['n', 'b', 's', 'p'] {
        Some('\u{a0}')
    } else if b == seq!['r', 'a', 'r', 'r'] {
        Some('\u{2192}')
    } else if b == seq!['l', 'a', 'r', 'r'] {
        Some('\u{2190}')
    } else if b == seq!['u', 'a', 'r', 'r'] {
        Some('\u{2191}')
    } else if b == seq!['d', 'a', 'r', 'r'] {
        Some('\u{2193}')
    } else if b == seq!['h', 'a', 'r', 'r'] {
        Some('\u{2194}')
    } else if b == seq!['m', 'd', 'a', 's', 'h'] {
        Some('\u{2014}')
    } else if b == seq!['n', 'd', 'a', 's', 'h'] {
        Some('\u{2013}')
    } else if b == seq!['h', 'e', 'l', 'l', 'i', 'p'] {
        Some('\u{2026}')
    } else if b == seq!['c', 'o', 'p', 'y'] {
        Some('\u{a9}')
    } else if b == seq!['r', 'e', 'g'] {
        Some('\u{ae}')
    } else if b == seq!['t', 'r', 'a', 'd', 'e'] {
        Some('\u{2122}')
    } else if b == seq!['d', 'e', 'g'] {
        Some('\u{b0}')
    } else if b == seq!['t', 'i', 'm', 'e', 's'] {
        Some('\u{d7}')
    } else if b == seq!['d', 'i', 'v', 'i', 'd', 'e'] {
        Some('\u{f7}')
    } else if b == seq!['p', 'l', 'u', 's', 'm', 'n'] {
        Some('\u{b1}')
    } else if b == seq!['l', 'e'] {
        Some('\u{2264}')
    } else if b == seq!['g', 'e'] {
        Some('\u{2265}')
    } else if b == seq!['n', 'e'] {
        Some('\u{2260}')
    } else if b == seq!['a', 's', 'y', 'm', 'p'] {
        Some('\u{2248}')
    } else if b == seq!['i', 'n', 'f', 'i', 'n'] {
        Some('\u{221e}')
    } else if b == seq!['a', 'l', 'p', 'h', 'a'] {
        Some('\u{3b1}')
    } else if b == seq!['b', 'e', 't', 'a'] {
        Some('\u{3b2}')
    } else if b == seq!['g', 'a', 'm', 'm', 'a'] {
        Some('\u{3b3}')
    } else if b == seq!['d', 'e', 'l', 't', 'a'] {
        Some('\u{3b4}')
    } else if b == seq!['p', 'i'] {
        Some('\u{3c0}')
    } else if b == seq!['s', 'i', 'g', 'm', 'a'] {
        Some('\u{3c3}')
    } else if b == seq!['t', 'a', 'u'] {
        Some('\u{3c4}')
    } else if b == seq!['o', 'm', 'e', 'g', 'a'] {
        Some('\u{3c9}')
    } else if b == seq!['s', 'u', 'm'] {
        Some('\u{2211}')
    } else if b == seq!['p', 'r', 'o', 'd'] {
        Some('\u{220f}')
    } else {
        None
    }
}

/// `c` is a digit in base `radix` (10 or 16), in either case for hex.
pub open spec fn is_digit(c: char, radix: nat) -> bool {
    ||| ('0' <= c && c <= '9')
    ||| (radix == 16 && (('a' <= c && c <= 'f') || ('A' <= c && c <= 'F')))
}

/// The value of the digit `c`.
pub open spec fn digit_value(c: char) -> nat {
    if '0' <= c && c <= '9' {
        (c as nat - '0' as nat) as nat
    } else if 'a' <= c && c <= 'f' {
        (c as nat - 'a' as nat + 10) as nat
    } else {
        (c as nat - 'A' as nat + 10) as nat
    }
}

/// The number that the digits `d` write in base `radix`.
pub open spec fn digits_value(d: Seq<char>, radix: nat) -> nat
    decreases d.len(),
{
    if d.len() == 0 {
        0
    } else {
        digits_value(d.drop_last(), radix) * radix + digit_value(d.last())
    }
}

/// The digits of a number written with an optional leading `+`.
pub open spec fn unsigned_digits(s: Seq<char>) -> Seq<char> {
    if s.len() > 0 && s[0] == '+' {
        s.drop_first()
    } else {
        s
    }
}

/// Every character of `d` is a digit of base `radix`.
pub open spec fn all_digits(d: Seq<char>, radix: nat) -> bool {
    forall|i: int| 0 <= i < d.len() ==> is_digit(#[trigger] d[i], radix)
}

/// `u32::from_str_radix(s, radix)` for radix 10 and 16: an optional `+`,
/// then at least one digit, and a value that fits in a `u32`.
pub open spec fn parse_u32(s: Seq<char>, radix: nat) -> Option<u32> {
    let d = unsigned_digits(s);
    if d.len() > 0 && all_digits(d, radix) && digits_value(d, radix) <= u32::MAX {
        Some(digits_value(d, radix) as u32)
    } else {
        None
    }
}

/// `char::from_u32`: the character with scalar value `v`, if there is one.
pub open spec fn scalar_char(v: u32) -> Option<char> {
    if v < 0xD800 || (0xE000 <= v && v <= 0x10FFFF) {
        Some(v as char)
    } else {
        None
    }
}

/// The character that the numeric reference body `num` (the part after
/// `#`) stands for: hex after `x`/`X`, decimal otherwise.
pub open spec fn numeric_entity(num: Seq<char>) -> Option<char> {
    let code = if num.len() > 0 && (num[0] == 'x' || num[0] == 'X') {
        parse_u32(num.drop_first(), 16)
    } else {
        parse_u32(num, 10)
    };
    match code {
        Some(v) => scalar_char(v),
        None => None,
    }
}

/// The character that the reference body `b` (between `&` and `;`) stands
/// for, if it is a recognised reference.
pub open spec fn entity_value(b: Seq<char>) -> Option<char> {
    if b.len() > 0 && b[0] == '#' {
        numeric_entity(b.drop_first())
    } else {
        named_entity(b)
    }
}

/// The reference that `after` (the text just after an `&`) starts with: its
/// character and how many characters of `after` it spans, `;` included. The
/// body runs to the first `;` and is at most 12 characters long.
pub open spec fn entity_at(after: Seq<char>) -> Option<(char, nat)> {
    match find_char(after, ';') {
        Some(k) => if k <= 12 {
            match entity_value(after.take(k as int)) {
                Some(c) => Some((c, k + 1)),
                None => None,
            }
        } else {
            None
        },
        None => None,
    }
}

/// A reference found by `entity_at` lies within the text.
pub proof fn lemma_entity_at_len(after: Seq<char>)
    ensures
        entity_at(after) matches Some((_, n)) ==> 1 <= n <= after.len(),
{
    lemma_find_char_bound(after, ';');
}

/// `s` with every recognised character reference replaced by its character;
/// every other `&` is kept as it is.
pub open spec fn decode(s: Seq<char>) -> Seq<char>
    decreases s.len(),
{
    if s.len() == 0 {
        s
    } else if s[0] != '&' {
        seq![s[0]] + decode(s.drop_first())
    } else {
        match entity_at(s.drop_first()) {
            Some((c, n)) => {
                proof {
                    lemma_entity_at_len(s.drop_first());
                }
                seq![c] + decode(s.drop_first().skip(n as int))
            },
            None => seq!['&'] + decode(s.drop_first()),
        }
    }
}

/// `char::from_u32`, which std documents as returning the `char` whose
/// scalar value is `v`, and `None` for surrogates and values past U+10FFFF.
#[verifier::external_body]
fn char_from_u32(v: u32) -> (r: Option<char>)
    ensures
        r == scalar_char(v),
{
    char::from_u32(v)
}

/// The named reference `v[lo..hi]` stands for.
fn named_entity_at(v: &Vec<char>, lo: usize, hi: usize) -> (r: Option<char>)
    requires
        lo <= hi <= v.len(),
    ensures
        r == named_entity(v@.subrange(lo as int, hi as int)),
{
    if window_is(v, lo, hi, &['a', 'm', 'p']) {
        return Some('&');
    }
    if window_is(v, lo, hi, &['l', 't']) {
        return Some('<');
    }
    if window_is(v, lo, hi, &['g', 't']) {
        return Some('>');
    }
    if window_is(v, lo, hi, &['q', 'u', 'o', 't']) {
        return Some('"');
    }
    if window_is(v, lo, hi, &['a', 'p', 'o', 's']) {
        return Some('\'');
    }
    if window_is(v, lo, hi, &['n', 'b', 's', 'p']) {
        return Some('\u{a0}');
    }
    if window_is(v, lo, hi, &['r', 'a', 'r', 'r']) {
        return Some('\u{2192}');
    }
    if window_is(v, lo, hi, &['l', 'a', 'r', 'r']) {
        return Some('\u{2190}');
    }
    if window_is(v, lo, hi, &['u', 'a', 'r', 'r']) {
        return Some('\u{2191}');
    }
    if window_is(v, lo, hi, &['d', 'a', 'r', 'r']) {
        return Some('\u{2193}');
    }
    if window_is(v, lo, hi, &['h', 'a', 'r', 'r']) {
        return Some('\u{2194}');
    }
    if window_is(v, lo, hi, &['m', 'd', 'a', 's', 'h']) {
        return Some('\u{2014}');
    }
    if window_is(v, lo, hi, &['n', 'd', 'a', 's', 'h']) {
        return Some('\u{2013}');
    }
    if window_is(v, lo, hi, &['h', 'e', 'l', 'l', 'i', 'p']) {
        return Some('\u{2026}');
    }
    if window_is(v, lo, hi, &['c', 'o', 'p', 'y']) {
        return Some('\u{a9}');
    }
    if window_is(v, lo, hi, &['r', 'e', 'g']) {
        return Some('\u{ae}');
    }
    if window_is(v, lo, hi, &['t', 'r', 'a', 'd', 'e']) {
        return Some('\u{2122}');
    }
    if window_is(v, lo, hi, &['d', 'e', 'g']) {
        return Some('\u{b0}');
    }
    if window_is(v, lo, hi, &['t', 'i', 'm', 'e', 's']) {
        return Some('\u{d7}');
    }
    if window_is(v, lo, hi, &['d', 'i', 'v', 'i', 'd', 'e']) {
        return Some('\u{f7}');
    }
    if window_is(v, lo, hi, &['p', 'l', 'u', 's', 'm', 'n']) {
        return Some('\u{b1}');
    }
    if window_is(v, lo, hi, &['l', 'e']) {
        return Some('\u{2264}');
    }
    if window_is(v, lo, hi, &['g', 'e']) {
        return Some('\u{2265}');
    }
    if window_is(v, lo, hi, &['n', 'e']) {
        return Some('\u{2260}');
    }
    if window_is(v, lo, hi, &['a', 's', 'y', 'm', 'p']) {
        return Some('\u{2248}');
    }
    if window_is(v, lo, hi, &['i', 'n', 'f', 'i', 'n']) {
        return Some('\u{221e}');
    }
    if window_is(v, lo, hi, &['a', 'l', 'p', 'h', 'a']) {
        return Some('\u{3b1}');
    }
    if window_is(v, lo, hi, &['b', 'e', 't', 'a']) {
        return Some('\u{3b2}');
    }
    if window_is(v, lo, hi, &['g', 'a', 'm', 'm', 'a']) {
        return Some('\u{3b3}');
    }
    if window_is(v, lo, hi, &['d', 'e', 'l', 't', 'a']) {
        return Some('\u{3b4}');
    }
    if window_is(v, lo, hi, &['p', 'i']) {
        return Some('\u{3c0}');
    }
    if window_is(v, lo, hi, &['s', 'i', 'g', 'm', 'a']) {
        return Some('\u{3c3}');
    }
    if window_is(v, lo, hi, &['t', 'a', 'u']) {
        return Some('\u{3c4}');
    }
    if window_is(v, lo, hi, &['o', 'm', 'e', 'g', 'a']) {
        return Some('\u{3c9}');
    }
    if window_is(v, lo, hi, &['s', 'u', 'm']) {
        return Some('\u{2211}');
    }
    if window_is(v, lo, hi, &['p', 'r', 'o', 'd']) {
        return Some('\u{220f}');
    }
    None
}

/// The value of a digit of base `radix`, if `c` is one.
fn digit_of(c: char, radix: u32) -> (r: Option<u32>)
    ensures
        match r {
            Some(d) => is_digit(c, radix as nat) && d == digit_value(c) && d < 16,
            None => !is_digit(c, radix as nat),
        },
{
    if '0' <= c && c <= '9' {
        Some((c as u32) - ('0' as u32))
    } else if radix == 16 && 'a' <= c && c <= 'f' {
        Some((c as u32) - ('a' as u32) + 10)
    } else if radix == 16 && 'A' <= c && c <= 'F' {
        Some((c as u32) - ('A' as u32) + 10)
    } else {
        None
    }
}

/// A longer digit string never has a smaller value.
proof fn lemma_digits_value_mono(d: Seq<char>, radix: nat, k: int)
    requires
        radix >= 1,
        0 <= k <= d.len(),
    ensures
        digits_value(d.take(k), radix) <= digits_value(d, radix),
    decreases d.len(),
{
    if k < d.len() {
        let p = d.drop_last();
        lemma_digits_value_mono(p, radix, k);
        assert(p.take(k) =~= d.take(k));
        let x = digits_value(p, radix);
        assert(x * radix >= x) by (nonlinear_arith)
            requires
                radix >= 1,
        ;
    } else {
        assert(d.take(k) =~= d);
    }
}

/// `u32::from_str_radix(v[lo..hi], radix)`, for radix 10 and 16.
fn parse_u32_at(v: &Vec<char>, lo: usize, hi: usize, radix: u32) -> (r: Option<u32>)
    requires
        lo <= hi <= v.len(),
        radix == 10 || radix == 16,
    ensures
        r == parse_u32(v@.subrange(lo as int, hi as int), radix as nat),
{
    let ghost s = v@.subrange(lo as int, hi as int);
    let start = if lo < hi && v[lo] == '+' {
        lo + 1
    } else {
        lo
    };
    let ghost d = v@.subrange(start as int, hi as int);
    assert(d =~= unsigned_digits(s));
    if start == hi {
        return None;
    }
    let mut acc: u64 = 0;
    let mut i = start;
    assert(d.take(0) =~= Seq::<char>::empty());
    while i < hi
        invariant
            lo <= start <= i <= hi <= v.len(),
            radix == 10 || radix == 16,
            d == v@.subrange(start as int, hi as int),
            s == v@.subrange(lo as int, hi as int),
            d == unsigned_digits(s),
            d.len() > 0,
            forall|j: int| 0 <= j < i - start ==> is_digit(#[trigger] d[j], radix as nat),
            acc == digits_value(d.take(i - start), radix as nat),
            acc <= u32::MAX,
        decreases hi - i,
    {
        match digit_of(v[i], radix) {
            None => {
                assert(d[i - start] == v@[i as int]);
                assert(!is_digit(d[i - start], radix as nat));
                assert(!all_digits(d, radix as nat));
                return None;
            },
            Some(x) => {
                assert(d.take(i + 1 - start).drop_last() =~= d.take(i - start));
                assert(d.take(i + 1 - start).last() == v@[i as int]);
                assert(acc * (radix as u64) <= 0xFFFF_FFFF * 16) by (nonlinear_arith)
                    requires
                        acc <= 0xFFFF_FFFF,
                        radix <= 16,
                ;
                let next = acc * (radix as u64) + (x as u64);
                if next > 0xFFFF_FFFF {
                    proof {
                        lemma_digits_value_mono(d, radix as nat, i + 1 - start);

                    }
                    return None;
                }
                assert(d[i - start] == v@[i as int]);
                acc = next;
                i = i + 1;
            },
        }
    }
    assert(d.take(d.len() as int) =~= d);
    Some(acc as u32)
}

/// The character that the reference body `v[lo..hi]` stands for.
fn entity_value_at(v: &Vec<char>, lo: usize, hi: usize) -> (r: Option<char>)
    requires
        lo <= hi <= v.len(),
    ensures
        r == entity_value(v@.subrange(lo as int, hi as int)),
{
    let ghost b = v@.subrange(lo as int, hi as int);
    if lo < hi && v[lo] == '#' {
        let ghost num = b.drop_first();
        assert(num =~= v@.subrange(lo + 1, hi as int));
        let code = if lo + 1 < hi && (v[lo + 1] == 'x' || v[lo + 1] == 'X') {
            assert(num.drop_first() =~= v@.subrange(lo + 2, hi as int));
            parse_u32_at(v, lo + 2, hi, 16)
        } else {
            parse_u32_at(v, lo + 1, hi, 10)
        };
        match code {
            Some(x) => char_from_u32(x),
            None => None,
        }
    } else {
        named_entity_at(v, lo, hi)
    }
}

/// `decode` on a character vector.
#[verifier::rlimit(40)]
pub fn decode_chars(v: &Vec<char>) -> (out: Vec<char>)
    ensures
        out@ == decode(v@),
{
    let n = v.len();
    let mut out: Vec<char> = Vec::new();
    let mut i: usize = 0;
    assert(v@.skip(0) =~= v@);
    assert(out@ + decode(v@) =~= decode(v@));
    while i < n
        invariant
            n == v.len(),
            0 <= i <= n,
            out@ + decode(v@.skip(i as int)) == decode(v@),
        decreases n - i,
    {
        let ghost rest = v@.skip(i as int);
        let ghost after = rest.drop_first();
        assert(after =~= v@.subrange(i + 1, n as int));
        if v[i] != '&' {
            out.push(v[i]);
            assert(after =~= v@.skip(i + 1));
            i = i + 1;
            continue;
        }
        match find_in(v, i + 1, n, ';') {
            Some(semi) => {
                if semi - (i + 1) <= 12 {
                    assert(after.take(semi - (i + 1)) =~= v@.subrange(i + 1, semi as int));
                    match entity_value_at(v, i + 1, semi) {
                        Some(c) => {
                            out.push(c);
                            assert(after.skip(semi - i) =~= v@.skip(semi + 1));
                            i = semi + 1;
                            continue;
                        },
                        None => {},
                    }
                }
            },
            None => {},
        }
        out.push('&');
        assert(after =~= v@.skip(i + 1));
        i = i + 1;
    }
    assert(v@.skip(n as int) =~= Seq::<char>::empty());
    out
}

/// Expands the HTML character references in `input` (`&rarr;`, `&nbsp;`,
/// `&#9654;`, ...) to their characters. Anything that is not a recognised
/// reference is left as it is.
pub fn decode_entities(input: &str) -> (out: String)
    ensures
        out@ == decode(input@),
{
    let v = chars_of(input);
    let out = decode_chars(&v);
    string_of(&out)
}


/// A named reference `&name;` followed by a text `t` decodes to the one
/// character it names followed by `t` decoded.
proof fn lemma_decode_named(name: Seq<char>, c: char, t: Seq<char>)
    requires
        1 <= name.len() <= 12,
        forall|j: int| 0 <= j < name.len() ==> #[trigger] name[j] != ';',
        name[0] != '#',
        named_entity(name) == Some(c),
    ensures
        decode(seq!['&'] + name + seq![';'] + t) == seq![c] + decode(t),
{
    let s = seq!['&'] + name + seq![';'] + t;
    let after = s.drop_first();
    assert(after =~= name + seq![';'] + t);
    assert forall|j: int| 0 <= j < name.len() implies #[trigger] after[j] != ';' by {
        assert(after[j] == name[j]);
    }
    assert(after[name.len() as int] == ';');
    lemma_find_char(after, ';', name.len() as int);
    assert(after.take(name.len() as int) =~= name);
    assert(after.skip(name.len() as int + 1) =~= t);
}

/// Each named reference among the markup characters (`&amp;`, `&lt;`, `&gt;`, `&quot;`, `&apos;`, `&nbsp;`) decodes to its HTML character, whatever
/// text follows it.
pub proof fn law_named_markup(rest: Seq<char>)
    ensures
        decode(seq!['&'] + seq!['a', 'm', 'p'] + seq![';'] + rest) == seq!['&'] + decode(rest),
        decode(seq!['&'] + seq!['l', 't'] + seq![';'] + rest) == seq!['<'] + decode(rest),
        decode(seq!['&'] + seq!['g', 't'] + seq![';'] + rest) == seq!['>'] + decode(rest),
        decode(seq!['&'] + seq!['q', 'u', 'o', 't'] + seq![';'] + rest) == seq!['"'] + decode(rest),
        decode(seq!['&'] + seq!['a', 'p', 'o', 's'] + seq![';'] + rest) == seq!['\''] + decode(rest),
        decode(seq!['&'] + seq!['n', 'b', 's', 'p'] + seq![';'] + rest) == seq!['\u{a0}'] + decode(rest),
{
    assert(named_entity(seq!['a', 'm', 'p']) == Some('&'));
    lemma_decode_named(seq!['a', 'm', 'p'], '&', rest);
    assert(named_entity(seq!['l', 't']) == Some('<'));
    lemma_decode_named(seq!['l', 't'], '<', rest);
    assert(named_entity(seq!['g', 't']) == Some('>'));
    lemma_decode_named(seq!['g', 't'], '>', rest);
    assert(named_entity(seq!['q', 'u', 'o', 't']) == Some('"'));
    lemma_decode_named(seq!['q', 'u', 'o', 't'], '"', rest);
    assert(named_entity(seq!['a', 'p', 'o', 's']) == Some('\''));
    lemma_decode_named(seq!['a', 'p', 'o', 's'], '\'', rest);
    assert(named_entity(seq!['n', 'b', 's', 'p']) == Some('\u{a0}'));
    lemma_decode_named(seq!['n', 'b', 's', 'p'], '\u{a0}', rest);
}

/// Each named reference among the arrows and dashes (`&rarr;` to `→`, `&mdash;` to `—`, ...) decodes to its HTML character, whatever
/// text follows it.
pub proof fn law_named_arrows(rest: Seq<char>)
    ensures
        decode(seq!['&'] + seq!['r', 'a', 'r', 'r'] + seq![';'] + rest) == seq!['\u{2192}'] + decode(rest),
        decode(seq!['&'] + seq!['l', 'a', 'r', 'r'] + seq![';'] + rest) == seq!['\u{2190}'] + decode(rest),
        decode(seq!['&'] + seq!['u', 'a', 'r', 'r'] + seq![';'] + rest) == seq!['\u{2191}'] + decode(rest),
        decode(seq!['&'] + seq!['d', 'a', 'r', 'r'] + seq![';'] + rest) == seq!['\u{2193}'] + decode(rest),
        decode(seq!['&'] + seq!['h', 'a', 'r', 'r'] + seq![';'] + rest) == seq!['\u{2194}'] + decode(rest),
        decode(seq!['&'] + seq!['m', 'd', 'a', 's', 'h'] + seq![';'] + rest) == seq!['\u{2014}'] + decode(rest),
        decode(seq!['&'] + seq!['n', 'd', 'a', 's', 'h'] + seq![';'] + rest) == seq!['\u{2013}'] + decode(rest),
        decode(seq!['&'] + seq!['h', 'e', 'l', 'l', 'i', 'p'] + seq![';'] + rest) == seq!['\u{2026}'] + decode(rest),
{
    assert(named_entity(seq!['r', 'a', 'r', 'r']) == Some('\u{2192}'));
    lemma_decode_named(seq!['r', 'a', 'r', 'r'], '\u{2192}', rest);
    assert(named_entity(seq!['l', 'a', 'r', 'r']) == Some('\u{2190}'));
    lemma_decode_named(seq!['l', 'a', 'r', 'r'], '\u{2190}', rest);
    assert(named_entity(seq!['u', 'a', 'r', 'r']) == Some('\u{2191}'));
    lemma_decode_named(seq!['u', 'a', 'r', 'r'], '\u{2191}', rest);
    assert(named_entity(seq!['d', 'a', 'r', 'r']) == Some('\u{2193}'));
    lemma_decode_named(seq!['d', 'a', 'r', 'r'], '\u{2193}', rest);
    assert(named_entity(seq!['h', 'a', 'r', 'r']) == Some('\u{2194}'));
    lemma_decode_named(seq!['h', 'a', 'r', 'r'], '\u{2194}', rest);
    assert(named_entity(seq!['m', 'd', 'a', 's', 'h']) == Some('\u{2014}'));
    lemma_decode_named(seq!['m', 'd', 'a', 's', 'h'], '\u{2014}', rest);
    assert(named_entity(seq!['n', 'd', 'a', 's', 'h']) == Some('\u{2013}'));
    lemma_decode_named(seq!['n', 'd', 'a', 's', 'h'], '\u{2013}', rest);
    assert(named_entity(seq!['h', 'e', 'l', 'l', 'i', 'p']) == Some('\u{2026}'));
    lemma_decode_named(seq!['h', 'e', 'l', 'l', 'i', 'p'], '\u{2026}', rest);
}

/// Each named reference among the typographic and mathematical symbols (`&copy;`, `&times;`, `&le;`, ...) decodes to its HTML character, whatever
/// text follows it.
pub proof fn law_named_symbols(rest: Seq<char>)
    ensures
        decode(seq!['&'] + seq!['c', 'o', 'p', 'y'] + seq![';'] + rest) == seq!['\u{a9}'] + decode(rest),
        decode(seq!['&'] + seq!['r', 'e', 'g'] + seq![';'] + rest) == seq!['\u{ae}'] + decode(rest),
        decode(seq!['&'] + seq!['t', 'r', 'a', 'd', 'e'] + seq![';'] + rest) == seq!['\u{2122}'] + decode(rest),
        decode(seq!['&'] + seq!['d', 'e', 'g'] + seq![';'] + rest) == seq!['\u{b0}'] + decode(rest),
        decode(seq!['&'] + seq!['t', 'i', 'm', 'e', 's'] + seq![';'] + rest) == seq!['\u{d7}'] + decode(rest),
        decode(seq!['&'] + seq!['d', 'i', 'v', 'i', 'd', 'e'] + seq![';'] + rest) == seq!['\u{f7}'] + decode(rest),
        decode(seq!['&'] + seq!['p', 'l', 'u', 's', 'm', 'n'] + seq![';'] + rest) == seq!['\u{b1}'] + decode(rest),
        decode(seq!['&'] + seq!['l', 'e'] + seq![';'] + rest) == seq!['\u{2264}'] + decode(rest),
        decode(seq!['&'] + seq!['g', 'e'] + seq![';'] + rest) == seq!['\u{2265}'] + decode(rest),
        decode(seq!['&'] + seq!['n', 'e'] + seq![';'] + rest) == seq!['\u{2260}'] + decode(rest),
        decode(seq!['&'] + seq!['a', 's', 'y', 'm', 'p'] + seq![';'] + rest) == seq!['\u{2248}'] + decode(rest),
        decode(seq!['&'] + seq!['i', 'n', 'f', 'i', 'n'] + seq![';'] + rest) == seq!['\u{221e}'] + decode(rest),
{
    assert(named_entity(seq!['c', 'o', 'p', 'y']) == Some('\u{a9}'));
    lemma_decode_named(seq!['c', 'o', 'p', 'y'], '\u{a9}', rest);
    assert(named_entity(seq!['r', 'e', 'g']) == Some('\u{ae}'));
    lemma_decode_named(seq!['r', 'e', 'g'], '\u{ae}', rest);
    assert(named_entity(seq!['t', 'r', 'a', 'd', 'e']) == Some('\u{2122}'));
    lemma_decode_named(seq!['t', 'r', 'a', 'd', 'e'], '\u{2122}', rest);
    assert(named_entity(seq!['d', 'e', 'g']) == Some('\u{b0}'));
    lemma_decode_named(seq!['d', 'e', 'g'], '\u{b0}', rest);
    assert(named_entity(seq!['t', 'i', 'm', 'e', 's']) == Some('\u{d7}'));
    lemma_decode_named(seq!['t', 'i', 'm', 'e', 's'], '\u{d7}', rest);
    assert(named_entity(seq!['d', 'i', 'v', 'i', 'd', 'e']) == Some('\u{f7}'));
    lemma_decode_named(seq!['d', 'i', 'v', 'i', 'd', 'e'], '\u{f7}', rest);
    assert(named_entity(seq!['p', 'l', 'u', 's', 'm', 'n']) == Some('\u{b1}'));
    lemma_decode_named(seq!['p', 'l', 'u', 's', 'm', 'n'], '\u{b1}', rest);
    assert(named_entity(seq!['l', 'e']) == Some('\u{2264}'));
    lemma_decode_named(seq!['l', 'e'], '\u{2264}', rest);
    assert(named_entity(seq!['g', 'e']) == Some('\u{2265}'));
    lemma_decode_named(seq!['g', 'e'], '\u{2265}', rest);
    assert(named_entity(seq!['n', 'e']) == Some('\u{2260}'));
    lemma_decode_named(seq!['n', 'e'], '\u{2260}', rest);
    assert(named_entity(seq!['a', 's', 'y', 'm', 'p']) == Some('\u{2248}'));
    lemma_decode_named(seq!['a', 's', 'y', 'm', 'p'], '\u{2248}', rest);
    assert(named_entity(seq!['i', 'n', 'f', 'i', 'n']) == Some('\u{221e}'));
    lemma_decode_named(seq!['i', 'n', 'f', 'i', 'n'], '\u{221e}', rest);
}

/// Each named reference among the Greek letters and big operators (`&alpha;`, `&pi;`, `&sum;`, ...) decodes to its HTML character, whatever
/// text follows it.
pub proof fn law_named_greek(rest: Seq<char>)
    ensures
        decode(seq!['&'] + seq!['a', 'l', 'p', 'h', 'a'] + seq![';'] + rest) == seq!['\u{3b1}'] + decode(rest),
        decode(seq!['&'] + seq!['b', 'e', 't', 'a'] + seq![';'] + rest) == seq!['\u{3b2}'] + decode(rest),
        decode(seq!['&'] + seq!['g', 'a', 'm', 'm', 'a'] + seq![';'] + rest) == seq!['\u{3b3}'] + decode(rest),
        decode(seq!['&'] + seq!['d', 'e', 'l', 't', 'a'] + seq![';'] + rest) == seq!['\u{3b4}'] + decode(rest),
        decode(seq!['&'] + seq!['p', 'i'] + seq![';'] + rest) == seq!['\u{3c0}'] + decode(rest),
        decode(seq!['&'] + seq!['s', 'i', 'g', 'm', 'a'] + seq![';'] + rest) == seq!['\u{3c3}'] + decode(rest),
        decode(seq!['&'] + seq!['t', 'a', 'u'] + seq![';'] + rest) == seq!['\u{3c4}'] + decode(rest),
        decode(seq!['&'] + seq!['o', 'm', 'e', 'g', 'a'] + seq![';'] + rest) == seq!['\u{3c9}'] + decode(rest),
        decode(seq!['&'] + seq!['s', 'u', 'm'] + seq![';'] + rest) == seq!['\u{2211}'] + decode(rest),
        decode(seq!['&'] + seq!['p', 'r', 'o', 'd'] + seq![';'] + rest) == seq!['\u{220f}'] + decode(rest),
{
    assert(named_entity(seq!['a', 'l', 'p', 'h', 'a']) == Some('\u{3b1}'));
    lemma_decode_named(seq!['a', 'l', 'p', 'h', 'a'], '\u{3b1}', rest);
    assert(named_entity(seq!['b', 'e', 't', 'a']) == Some('\u{3b2}'));
    lemma_decode_named(seq!['b', 'e', 't', 'a'], '\u{3b2}', rest);
    assert(named_entity(seq!['g', 'a', 'm', 'm', 'a']) == Some('\u{3b3}'));
    lemma_decode_named(seq!['g', 'a', 'm', 'm', 'a'], '\u{3b3}', rest);
    assert(named_entity(seq!['d', 'e', 'l', 't', 'a']) == Some('\u{3b4}'));
    lemma_decode_named(seq!['d', 'e', 'l', 't', 'a'], '\u{3b4}', rest);
    assert(named_entity(seq!['p', 'i']) == Some('\u{3c0}'));
    lemma_decode_named(seq!['p', 'i'], '\u{3c0}', rest);
    assert(named_entity(seq!['s', 'i', 'g', 'm', 'a']) == Some('\u{3c3}'));
    lemma_decode_named(seq!['s', 'i', 'g', 'm', 'a'], '\u{3c3}', rest);
    assert(named_entity(seq!['t', 'a', 'u']) == Some('\u{3c4}'));
    lemma_decode_named(seq!['t', 'a', 'u'], '\u{3c4}', rest);
    assert(named_entity(seq!['o', 'm', 'e', 'g', 'a']) == Some('\u{3c9}'));
    lemma_decode_named(seq!['o', 'm', 'e', 'g', 'a'], '\u{3c9}', rest);
    assert(named_entity(seq!['s', 'u', 'm']) == Some('\u{2211}'));
    lemma_decode_named(seq!['s', 'u', 'm'], '\u{2211}', rest);
    assert(named_entity(seq!['p', 'r', 'o', 'd']) == Some('\u{220f}'));
    lemma_decode_named(seq!['p', 'r', 'o', 'd'], '\u{220f}', rest);
}

/// A text without `&` holds no reference: it decodes to itself, and
/// decoding a text that starts with it decodes only what follows.
pub proof fn law_decode_plain_prefix(plain: Seq<char>, rest: Seq<char>)
    requires
        forall|j: int| 0 <= j < plain.len() ==> #[trigger] plain[j] != '&',
    ensures
        decode(plain + rest) == plain + decode(rest),
    decreases plain.len(),
{
    if plain.len() > 0 {
        let p2 = plain.drop_first();
        assert forall|j: int| 0 <= j < p2.len() implies #[trigger] p2[j] != '&' by {
            assert(p2[j] == plain[j + 1]);
        }
        law_decode_plain_prefix(p2, rest);
        assert((plain + rest).drop_first() =~= p2 + rest);
        assert(plain[0] != '&');
        assert(seq![plain[0]] + p2 =~= plain);
        assert((plain + rest)[0] == plain[0]);
    }
}

} // verus!
