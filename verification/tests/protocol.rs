use diagramide::mruby::{
    decode_response, finish_response, parse_header, settle_response, DEFAULT_MRUBY_OUTPUT_LIMIT,
};
use diagramide::tcl::{add_duration, command_limit_for_tcl, tcl_outcome, TclTime, TCL_OK};

#[test]
fn header_gives_status_and_length() {
    assert_eq!(parse_header("OK 5\n"), Ok(("OK".to_string(), 5)));
    assert_eq!(parse_header("ERR 0\r\n"), Ok(("ERR".to_string(), 0)));
    assert_eq!(parse_header("OK +12\n"), Ok(("OK".to_string(), 12)));
}

#[test]
fn header_errors() {
    assert_eq!(parse_header(""), Err("mruby worker stopped unexpectedly".to_string()));
    assert_eq!(parse_header("OK\n"), Err("Invalid response from mruby worker".to_string()));
    assert_eq!(
        parse_header("OK five\n"),
        Err("Invalid response length from mruby worker".to_string())
    );
    assert_eq!(parse_header("OK \n"), Err("Invalid response from mruby worker".to_string()));
    assert_eq!(
        parse_header("OK  5\n"),
        Err("Invalid response length from mruby worker".to_string())
    );
    assert_eq!(
        parse_header("OK 99999999999999999999999\n"),
        Err("Invalid response length from mruby worker".to_string())
    );
    let over = format!("OK {}\n", DEFAULT_MRUBY_OUTPUT_LIMIT + 1);
    assert_eq!(parse_header(&over), Err("mruby output exceeded 10 MiB".to_string()));
    let at = format!("OK {}\n", DEFAULT_MRUBY_OUTPUT_LIMIT);
    assert_eq!(parse_header(&at), Ok(("OK".to_string(), DEFAULT_MRUBY_OUTPUT_LIMIT)));
}

#[test]
fn responses_by_status() {
    assert_eq!(decode_response("OK", "box".to_string()), Ok(Ok("box".to_string())));
    assert_eq!(decode_response("ERR", "broken".to_string()), Ok(Err("broken".to_string())));
    assert_eq!(
        decode_response("MAYBE", "x".to_string()),
        Err("Invalid response from mruby worker".to_string())
    );
}

#[test]
fn a_broken_exchange_discards_the_worker() {
    assert_eq!(settle_response(Ok(Ok("a".to_string()))), (Ok("a".to_string()), true));
    assert_eq!(settle_response(Ok(Err("e".to_string()))), (Err("e".to_string()), true));
    assert_eq!(
        settle_response(Err("mruby execution timed out".to_string())),
        (Err("mruby execution timed out".to_string()), false)
    );
}

#[test]
fn deadline_arithmetic() {
    let mut t = TclTime { sec: 10, usec: 999_000 };
    add_duration(&mut t, 2, 5_000);
    assert_eq!(t, TclTime { sec: 13, usec: 4_000 });
    let mut u = TclTime { sec: i64::MAX - 1, usec: 0 };
    add_duration(&mut u, u64::MAX, 0);
    assert_eq!(u, TclTime { sec: i64::MAX, usec: 0 });
    let mut v = TclTime { sec: 1, usec: 500 };
    add_duration(&mut v, 0, 0);
    assert_eq!(v, TclTime { sec: 1, usec: 500 });
}

#[test]
fn command_limit_fits_an_int() {
    assert_eq!(command_limit_for_tcl(1_000_000), 1_000_000);
    assert_eq!(command_limit_for_tcl(u32::MAX), i32::MAX);
}

#[test]
fn timeout_wins_over_the_result() {
    assert_eq!(tcl_outcome(true, TCL_OK, "42".to_string()), Err("Tcl execution timed out".to_string()));
    assert_eq!(tcl_outcome(false, TCL_OK, "42".to_string()), Ok("42".to_string()));
    assert_eq!(tcl_outcome(false, 1, "bad".to_string()), Err("bad".to_string()));
}

#[test]
fn output_must_end_in_a_line_break_and_be_utf8() {
    assert_eq!(finish_response("OK", b"box".to_vec(), b'\n'), Ok(Ok("box".to_string())));
    assert_eq!(
        finish_response("ERR", "é".as_bytes().to_vec(), b'\n'),
        Ok(Err("é".to_string()))
    );
    assert_eq!(
        finish_response("OK", b"box".to_vec(), b'x'),
        Err("Invalid response from mruby worker".to_string())
    );
    let bad = finish_response("OK", vec![0xff, 0x61], b'\n');
    assert!(matches!(bad, Err(ref e) if e.starts_with("mruby output was not UTF-8")));
}
