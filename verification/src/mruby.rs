//! The protocol spoken with the mruby worker process, and what becomes of
//! its answers. Each answer is a header line `STATUS LENGTH`, then LENGTH
//! bytes of output, then a newline; STATUS is `OK` for output and `ERR` for
//! an error message.
use vstd::prelude::*;
use crate::entities::{all_digits, digits_value, is_digit, unsigned_digits};
use crate::text::{chars_of, string_of, trim_end, trim_end_range, find_char, find_in, push_range};
use vstd::utf8::{decode_utf8, encode_utf8, valid_utf8, decode_utf8_encode_utf8, encode_utf8_decode_utf8};

verus! {

/// How long an evaluation may take, in seconds.
pub const DEFAULT_MRUBY_TIMEOUT_SECS: u64 = 2;

/// The most output an evaluation may produce: 10 MiB.
pub const DEFAULT_MRUBY_OUTPUT_LIMIT: usize = 10485760;

/// The error when the worker stopped.
pub open spec fn stopped_error() -> Seq<char> {
    "mruby worker stopped unexpectedly"@
}

/// The error for a malformed answer.
pub open spec fn invalid_error() -> Seq<char> {
    "Invalid response from mruby worker"@
}

/// The error for an answer whose length is not a number.
pub open spec fn invalid_length_error() -> Seq<char> {
    "Invalid response length from mruby worker"@
}

/// The error for an answer over the output limit.
pub open spec fn too_long_error() -> Seq<char> {
    "mruby output exceeded 10 MiB"@
}

/// `usize::from_str` on `s`: an optional `+`, at least one decimal digit,
/// and a value that fits.
pub open spec fn parse_usize(s: Seq<char>) -> Option<usize> {
    let d = unsigned_digits(s);
    if d.len() > 0 && all_digits(d, 10) && digits_value(d, 10) <= usize::MAX {
        Some(digits_value(d, 10) as usize)
    } else {
        None
    }
}

/// What the header line `header` (as read, line break included) announces:
/// the status word and the payload length, or the error that ends the
/// exchange.
pub open spec fn spec_parse_header(header: Seq<char>) -> Result<(Seq<char>, usize), Seq<char>> {
    if header.len() == 0 {
        Err(stopped_error())
    } else {
        let t = trim_end(header);
        match find_char(t, ' ') {
            None => Err(invalid_error()),
            Some(k) => match parse_usize(t.skip(k + 1 as int)) {
                None => Err(invalid_length_error()),
                Some(n) => if n > DEFAULT_MRUBY_OUTPUT_LIMIT {
                    Err(too_long_error())
                } else {
                    Ok((t.take(k as int), n))
                },
            },
        }
    }
}

/// A longer digit string never has a smaller value.
proof fn lemma_digits_value_mono(d: Seq<char>, k: int)
    requires
        0 <= k <= d.len(),
    ensures
        digits_value(d.take(k), 10) <= digits_value(d, 10),
    decreases d.len(),
{
    if k < d.len() {
        let p = d.drop_last();
        lemma_digits_value_mono(p, k);
        assert(p.take(k) =~= d.take(k));
        let x = digits_value(p, 10);
        assert(x * 10 >= x) by (nonlinear_arith)
            requires
                x >= 0,
        ;
    } else {
        assert(d.take(k) =~= d);
    }
}

/// `usize::from_str` on `v[lo..hi]`.
fn parse_usize_at(v: &Vec<char>, lo: usize, hi: usize) -> (r: Option<usize>)
    requires
        lo <= hi <= v.len(),
    ensures
        r == parse_usize(v@.subrange(lo as int, hi as int)),
{
    let ghost s = v@.subrange(lo as int, hi as int);
    let start = if lo < hi && v[lo] == '+' {
        lo + 1
    } else {
        lo
    };
    let ghost d = v@.subrange(start as int, hi as int);
    assert(d =~= unsigned_digits(s));
    if start == hi {
        return None;
    }
    let mut acc: usize = 0;
    let mut i = start;
    assert(d.take(0) =~= Seq::<char>::empty());
    while i < hi
        invariant
            lo <= start <= i <= hi <= v.len(),
            s == v@.subrange(lo as int, hi as int),
            d == v@.subrange(start as int, hi as int),
            d == unsigned_digits(s),
            d.len() > 0,
            forall|j: int| 0 <= j < i - start ==> is_digit(#[trigger] d[j], 10),
            acc == digits_value(d.take(i - start), 10),
        decreases hi - i,
    {
        let c = v[i];
        assert(d[i - start] == c);
        if !('0' <= c && c <= '9') {
            assert(!is_digit(d[i - start], 10));
            assert(!all_digits(d, 10));
            return None;
        }
        assert(d.take(i + 1 - start).drop_last() =~= d.take(i - start));
        assert(d.take(i + 1 - start).last() == c);
        let x = (c as u32 - '0' as u32) as usize;
        match acc.checked_mul(10) {
            None => {
                proof {
                    lemma_digits_value_mono(d, i + 1 - start);
                }
                return None;
            },
            Some(m) => match m.checked_add(x) {
                None => {
                    proof {
                        lemma_digits_value_mono(d, i + 1 - start);
                    }
                    return None;
                },
                Some(next) => {
                    acc = next;
                },
            },
        }
        i = i + 1;
    }
    assert(d.take(d.len() as int) =~= d);
    Some(acc)
}

/// Reads the header line of an answer of the worker: the status word and
/// the length of the output that follows.
pub fn parse_header(header: &str) -> (r: Result<(String, usize), String>)
    ensures
        match (r, spec_parse_header(header@)) {
            (Ok((s, n)), Ok((s2, n2))) => s@ == s2 && n == n2,
            (Err(e), Err(e2)) => e@ == e2,
            _ => false,
        },
{
    let v = chars_of(header);
    if v.len() == 0 {
        return Err("mruby worker stopped unexpectedly".to_owned());
    }
    let b = trim_end_range(&v, 0, v.len());
    assert(v@.subrange(0, v@.len() as int) =~= v@);
    let ghost t = v@.subrange(0, b as int);
    match find_in(&v, 0, b, ' ') {
        None => Err("Invalid response from mruby worker".to_owned()),
        Some(k) => {
            assert(t.skip(k + 1) =~= v@.subrange(k + 1, b as int));
            match parse_usize_at(&v, k + 1, b) {
                None => Err("Invalid response length from mruby worker".to_owned()),
                Some(n) => {
                    if n > DEFAULT_MRUBY_OUTPUT_LIMIT {
                        Err("mruby output exceeded 10 MiB".to_owned())
                    } else {
                        let mut status: Vec<char> = Vec::new();
                        push_range(&mut status, &v, 0, k);
                        assert(t.take(k as int) =~= v@.subrange(0, k as int));
                        Ok((string_of(&status), n))
                    }
                },
            }
        },
    }
}

/// What an answer of the worker means, once its output has been read as
/// `payload` (and found to be followed by a newline and valid UTF-8):
/// output for `OK`, an evaluation error for `ERR`, and a broken exchange for
/// any other status.
pub open spec fn spec_decode_response(status: Seq<char>, payload: Seq<char>) -> Result<
    Result<Seq<char>, Seq<char>>,
    Seq<char>,
> {
    if status == "OK"@ {
        Ok(Ok(payload))
    } else if status == "ERR"@ {
        Ok(Err(payload))
    } else {
        Err(invalid_error())
    }
}

/// Decodes an answer of the worker from its status word and its output.
pub fn decode_response(status: &str, payload: String) -> (r: Result<Result<String, String>, String>)
    ensures
        match (r, spec_decode_response(status@, payload@)) {
            (Ok(Ok(p)), Ok(Ok(p2))) => p@ == p2,
            (Ok(Err(p)), Ok(Err(p2))) => p@ == p2,
            (Err(e), Err(e2)) => e@ == e2,
            _ => false,
        },
{
    let v = chars_of(status);
    proof {
        reveal_strlit("OK");
        reveal_strlit("ERR");
    }
    if v.len() == 2 && v[0] == 'O' && v[1] == 'K' {
        assert(status@ =~= "OK"@);
        Ok(Ok(payload))
    } else if v.len() == 3 && v[0] == 'E' && v[1] == 'R' && v[2] == 'R' {
        assert(status@ =~= "ERR"@);
        Ok(Err(payload))
    } else {
        proof {
            if status@ == "OK"@ {
                assert(v@[0] == 'O' && v@[1] == 'K');
            }
            if status@ == "ERR"@ {
                assert(v@[0] == 'E' && v@[1] == 'R' && v@[2] == 'R');
            }
        }
        Err("Invalid response from mruby worker".to_owned())
    }
}

/// `String::from_utf8` on the output the worker sent: the text those bytes
/// encode when they are valid UTF-8, and otherwise an error that quotes
/// std's description of the fault (which this contract does not state).
#[verifier::external_body]
fn output_from_utf8(bytes: Vec<u8>) -> (r: Result<String, String>)
    ensures
        match r {
            Ok(s) => valid_utf8(bytes@) && encode_utf8(s@) == bytes@,
            Err(_) => !valid_utf8(bytes@),
        },
{
    match String::from_utf8(bytes) {
        Ok(s) => Ok(s),
        Err(error) => Err(format!("mruby output was not UTF-8: {error}")),
    }
}

/// What an answer of the worker means, once its header has been read as
/// `status` and then its output as `payload` and the byte after it as
/// `trailer`: a broken exchange when the trailer is not a line break or the
/// output is not UTF-8, and otherwise what `spec_decode_response` says of
/// the decoded output.
pub fn finish_response(status: &str, payload: Vec<u8>, trailer: u8) -> (r: Result<
    Result<String, String>,
    String,
>)
    ensures
        trailer != 10u8 ==> (r matches Err(e) && e@ == invalid_error()),
        trailer == 10u8 && !valid_utf8(payload@) ==> r is Err,
        trailer == 10u8 && valid_utf8(payload@) ==> match (
            r,
            spec_decode_response(status@, decode_utf8(payload@)),
        ) {
            (Ok(Ok(p)), Ok(Ok(p2))) => p@ == p2,
            (Ok(Err(p)), Ok(Err(p2))) => p@ == p2,
            (Err(e), Err(e2)) => e@ == e2,
            _ => false,
        },
{
    if trailer != 10u8 {
        return Err("Invalid response from mruby worker".to_owned());
    }
    let ghost bytes = payload@;
    match output_from_utf8(payload) {
        Err(e) => Err(e),
        Ok(text) => {
            proof {
                decode_utf8_encode_utf8(bytes);
                encode_utf8_decode_utf8(text@);
            }
            assert(text@ == decode_utf8(bytes));
            decode_response(status, text)
        },
    }
}

/// What an evaluation returns, given what the worker answered, and whether
/// the worker can be kept: an answer (output or evaluation error) keeps it;
/// a broken exchange (time-out, a stopped or confused worker) discards it,
/// so the next evaluation starts a fresh one.
pub fn settle_response(response: Result<Result<String, String>, String>) -> (r: (Result<String, String>, bool))
    ensures
        match response {
            Ok(result) => r.0 == result && r.1,
            Err(error) => r.0 == Err::<String, String>(error) && !r.1,
        },
{
    match response {
        Ok(result) => (result, true),
        Err(error) => (Err(error), false),
    }
}

} // verus!
