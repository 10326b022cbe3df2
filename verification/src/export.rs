//! The file an export goes to: the diagram's name made safe for a file
//! name, and the extension of the format.
use vstd::prelude::*;
use crate::kinds::ExportType;
use crate::text::{chars_of, is_whitespace, spec_is_whitespace, string_of};

verus! {

/// The extension of the files of an export format.
pub open spec fn spec_extension(t: ExportType) -> Seq<char> {
    match t {
        ExportType::Svg => "svg"@,
        ExportType::Png => "png"@,
        ExportType::PngTransparent => "png"@,
    }
}

/// The extension of the files of an export format.
pub fn extension(t: ExportType) -> (r: &'static str)
    ensures
        r@ == spec_extension(t),
{
    match t {
        ExportType::Svg => "svg",
        ExportType::Png => "png",
        ExportType::PngTransparent => "png",
    }
}

/// Whether `c` is alphabetic or numeric in Unicode, as
/// `char::is_alphanumeric` decides it.
pub uninterp spec fn alphanumeric(c: char) -> bool;

/// `char::is_alphanumeric`; its result is named `alphanumeric`.
#[verifier::external_body]
fn is_alphanumeric(c: char) -> (r: bool)
    ensures
        r == alphanumeric(c),
{
    c.is_alphanumeric()
}

/// The characters of `s` that a file name keeps: letters, digits and
/// spaces, in order.
pub open spec fn kept_chars(s: Seq<char>) -> Seq<char>
    decreases s.len(),
{
    if s.len() == 0 {
        s
    } else {
        let rest = kept_chars(s.drop_last());
        let c = s.last();
        if alphanumeric(c) || c == ' ' {
            rest.push(c)
        } else {
            rest
        }
    }
}

/// `str::split_whitespace`: the maximal runs of characters of `s` that are
/// not whitespace, in order.
pub open spec fn words(s: Seq<char>) -> Seq<Seq<char>>
    decreases s.len(),
{
    if s.len() == 0 {
        Seq::empty()
    } else {
        let w = words(s.drop_last());
        let c = s.last();
        if spec_is_whitespace(c) {
            w
        } else if s.len() >= 2 && !spec_is_whitespace(s[s.len() - 2]) {
            w.update(w.len() - 1, w.last().push(c))
        } else {
            w.push(seq![c])
        }
    }
}

/// The words joined by `_`.
pub open spec fn join_underscore(ws: Seq<Seq<char>>) -> Seq<char>
    decreases ws.len(),
{
    if ws.len() == 0 {
        Seq::empty()
    } else if ws.len() == 1 {
        ws[0]
    } else {
        join_underscore(ws.drop_last()) + seq!['_'] + ws.last()
    }
}

/// The diagram name `file` made safe for a file name: only its letters,
/// digits and spaces, and its words joined by `_`.
pub open spec fn spec_clean_file_name(file: Seq<char>) -> Seq<char> {
    join_underscore(words(kept_chars(file)))
}

/// A text that ends with a character that is not whitespace has a word.
proof fn lemma_words_nonempty(s: Seq<char>)
    requires
        s.len() > 0,
        !spec_is_whitespace(s.last()),
    ensures
        words(s).len() > 0,
    decreases s.len(),
{
    if s.len() >= 2 && !spec_is_whitespace(s[s.len() - 2]) {
        assert(s.drop_last().last() == s[s.len() - 2]);
        lemma_words_nonempty(s.drop_last());
    }
}

/// Extending the last word adds its character at the end of the joined
/// words.
proof fn lemma_join_extend(ws: Seq<Seq<char>>, c: char)
    requires
        ws.len() > 0,
    ensures
        join_underscore(ws.update(ws.len() - 1, ws.last().push(c))) == join_underscore(ws).push(c),
{
    let u = ws.update(ws.len() - 1, ws.last().push(c));
    if ws.len() == 1 {
        assert(u[0] == ws[0].push(c));
    } else {
        assert(u.drop_last() =~= ws.drop_last());
        assert(u.last() == ws.last().push(c));
        assert(join_underscore(u) =~= join_underscore(ws).push(c));
    }
}

/// Starting a word adds `_` (when there were words) and its character.
proof fn lemma_join_push(ws: Seq<Seq<char>>, c: char)
    ensures
        join_underscore(ws.push(seq![c])) == if ws.len() == 0 {
            seq![c]
        } else {
            join_underscore(ws) + seq!['_', c]
        },
{
    let u = ws.push(seq![c]);
    assert(u.drop_last() =~= ws);
    if ws.len() > 0 {
        assert(join_underscore(u) =~= join_underscore(ws) + seq!['_', c]);
    }
}

/// The words of `text` (its runs of non-whitespace characters) joined by
/// `_`.
pub fn join_words(text: &str) -> (r: String)
    ensures
        r@ == join_underscore(words(text@)),
{
    let v = chars_of(text);
    let mut out: Vec<char> = Vec::new();
    let mut prev_ws = true;
    let mut any = false;
    let mut i: usize = 0;
    assert(v@.take(0) =~= Seq::<char>::empty());
    while i < v.len()
        invariant
            0 <= i <= v.len(),
            v@ == text@,
            out@ == join_underscore(words(v@.take(i as int))),
            any == (words(v@.take(i as int)).len() > 0),
            prev_ws == (i == 0 || spec_is_whitespace(v@[i - 1])),
        decreases v.len() - i,
    {
        let c = v[i];
        let ghost k0 = v@.take(i as int);
        let ghost k1 = v@.take(i + 1);
        assert(k1.drop_last() =~= k0);
        assert(k1.last() == c);
        if is_whitespace(c) {
            prev_ws = true;
        } else {
            if !prev_ws {
                proof {
                    assert(k1[k1.len() - 2] == v@[i - 1]);
                    assert(k0.last() == v@[i - 1]);
                    lemma_words_nonempty(k0);
                    lemma_join_extend(words(k0), c);
                }
            } else {
                proof {
                    if k1.len() >= 2 {
                        assert(k1[k1.len() - 2] == v@[i - 1]);
                    }
                    lemma_join_push(words(k0), c);
                }
                if any {
                    out.push('_');
                }
            }
            out.push(c);
            any = true;
            prev_ws = false;
            assert(out@ =~= join_underscore(words(k1)));
        }
        i = i + 1;
    }
    assert(v@.take(v.len() as int) =~= v@);
    string_of(&out)
}

/// The diagram name `file` made safe for a file name: letters, digits and
/// spaces are kept, and the words are joined by `_`.
pub fn clean_file_name(file: &str) -> (r: String)
    ensures
        r@ == spec_clean_file_name(file@),
{
    let v = chars_of(file);
    let mut kept: Vec<char> = Vec::new();
    let mut i: usize = 0;
    assert(v@.take(0) =~= Seq::<char>::empty());
    while i < v.len()
        invariant
            0 <= i <= v.len(),
            v@ == file@,
            kept@ == kept_chars(v@.take(i as int)),
        decreases v.len() - i,
    {
        let c = v[i];
        assert(v@.take(i + 1).drop_last() =~= v@.take(i as int));
        assert(v@.take(i + 1).last() == c);
        if is_alphanumeric(c) || c == ' ' {
            kept.push(c);
        }
        i = i + 1;
    }
    assert(v@.take(v.len() as int) =~= v@);
    let k = string_of(&kept);
    join_words(k.as_str())
}

} // verus!
