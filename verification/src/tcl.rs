//! The arithmetic and decisions around a Tcl evaluation: its deadline, its
//! command limit, and what its outcome means.
use vstd::prelude::*;

verus! {

/// How long an evaluation may take, in seconds.
pub const DEFAULT_TCL_TIMEOUT_SECS: u64 = 2;

/// How many commands an evaluation may run.
pub const DEFAULT_TCL_COMMAND_LIMIT: u32 = 1000000;

/// Tcl's result code for success.
pub const TCL_OK: i32 = 0;

/// A point in time as Tcl keeps it: seconds and microseconds.
#[derive(Debug, Clone, Copy, PartialEq, Eq, Structural)]
pub struct TclTime {
    pub sec: i64,
    pub usec: i64,
}

/// `x + y`, held at the largest `i64` (and the smallest) when it overflows.
pub open spec fn sat_add(x: i64, y: i64) -> i64 {
    if x + y > i64::MAX {
        i64::MAX
    } else if x + y < i64::MIN {
        i64::MIN
    } else {
        (x + y) as i64
    }
}

/// `x + y` for a non-negative `y`, held at the largest `i64`.
fn saturating_add_i64(x: i64, y: i64) -> (r: i64)
    requires
        y >= 0,
    ensures
        r == sat_add(x, y),
{
    if x > i64::MAX - y {
        i64::MAX
    } else {
        x + y
    }
}

/// Moves `time` on by `secs` seconds and `micros` microseconds (less than a
/// second): the seconds saturate, and a carry of microseconds becomes a
/// second.
pub fn add_duration(time: &mut TclTime, secs: u64, micros: u32)
    requires
        micros < 1000000,
        old(time).usec + micros <= i64::MAX,
    ensures
        ({
            let s = if secs > i64::MAX as u64 {
                i64::MAX
            } else {
                secs as i64
            };
            let sec1 = sat_add(old(time).sec, s);
            let usec1 = old(time).usec + micros;
            if usec1 >= 1000000 {
                final(time).sec == sat_add(sec1, 1) && final(time).usec == usec1 - 1000000
            } else {
                final(time).sec == sec1 && final(time).usec == usec1
            }
        }),
{
    let seconds: i64 = if secs > i64::MAX as u64 {
        i64::MAX
    } else {
        secs as i64
    };
    let microseconds: i64 = micros as i64;
    time.sec = saturating_add_i64(time.sec, seconds);
    time.usec = time.usec + microseconds;
    if time.usec >= 1000000 {
        time.sec = saturating_add_i64(time.sec, 1);
        time.usec = time.usec - 1000000;
    }
}

/// The command limit handed to Tcl, which takes an `int`: `limit`, held at
/// the largest `i32`.
pub fn command_limit_for_tcl(limit: u32) -> (r: i32)
    ensures
        r == if limit > i32::MAX as u32 {
            i32::MAX as int
        } else {
            limit as int
        },
{
    if limit > 2147483647u32 {
        2147483647i32
    } else {
        limit as i32
    }
}

/// The error of an evaluation that ran out of time.
pub open spec fn timed_out_error() -> Seq<char> {
    "Tcl execution timed out"@
}

/// What an evaluation returns: a time-out wins over anything else; otherwise
/// the interpreter's result is the value on `TCL_OK` and the error message
/// on any other code.
pub fn tcl_outcome(timed_out: bool, code: i32, result: String) -> (r: Result<String, String>)
    ensures
        timed_out ==> (r matches Err(e) && e@ == timed_out_error()),
        !timed_out && code == TCL_OK ==> r == Ok::<String, String>(result),
        !timed_out && code != TCL_OK ==> r == Err::<String, String>(result),
{
    if timed_out {
        Err("Tcl execution timed out".to_owned())
    } else if code == TCL_OK {
        Ok(result)
    } else {
        Err(result)
    }
}

} // verus!
