use diagramide::editor::{
    adjust_after_removals, collect_line_starts, do_dedent, do_indent, get_last_line,
    get_line_indent, handle_indent, handle_tab,
};

#[test]
fn line_indent_is_the_leading_whitespace() {
    assert_eq!(get_line_indent("  \tabc  "), "  \t");
    assert_eq!(get_line_indent("abc"), "");
    assert_eq!(get_line_indent("   "), "   ");
    assert_eq!(get_line_indent(""), "");
}

#[test]
fn last_line_follows_the_last_break() {
    assert_eq!(get_last_line("a\nbc"), "bc");
    assert_eq!(get_last_line("abc"), "abc");
    assert_eq!(get_last_line("a\n"), "");
    assert_eq!(get_last_line(""), "");
}

#[test]
fn line_starts_of_a_selection() {
    assert_eq!(collect_line_starts("a\nb\nc", 0, 3), vec![0, 2]);
    assert_eq!(collect_line_starts("a\nb\nc", 1, 5), vec![0, 2, 4]);
    assert_eq!(collect_line_starts("ab\ncd", 4, 4), vec![3]);
    assert_eq!(collect_line_starts("ab", 10, 20), vec![0]);
}

#[test]
fn a_line_starting_at_the_selection_end_is_not_selected() {
    assert_eq!(collect_line_starts("a\nb\nc", 0, 2), vec![0]);
}

#[test]
fn line_starts_are_byte_offsets() {
    assert_eq!(collect_line_starts("é\nx", 0, 4), vec![0, 3]);
}

#[test]
fn adjusting_after_removals() {
    assert_eq!(adjust_after_removals(5, &[(0, 2), (4, 2)]), 2);
    assert_eq!(adjust_after_removals(0, &[(0, 2)]), 0);
    assert_eq!(adjust_after_removals(1, &[(0, 2)]), 0);
    assert_eq!(adjust_after_removals(3, &[(5, 2)]), 3);
    assert_eq!(adjust_after_removals(7, &[]), 7);
}

#[test]
fn tab_without_selection_inserts_two_spaces() {
    assert_eq!(do_indent("ab", 1, 1), ("a  b".to_string(), 3, 3));
    assert_eq!(do_indent("ab", 9, 9), ("ab  ".to_string(), 4, 4));
}

#[test]
fn tab_indents_every_selected_line() {
    assert_eq!(do_indent("a\nb\nc", 0, 3), ("  a\n  b\nc".to_string(), 2, 7));
    assert_eq!(do_indent("a\nb\nc", 3, 0), ("  a\n  b\nc".to_string(), 7, 2));
}

#[test]
fn shift_tab_dedents_every_selected_line() {
    assert_eq!(do_dedent("  a\n  b\nc", 2, 7), Some(("a\nb\nc".to_string(), 0, 3)));
    assert_eq!(do_dedent(" a\n   b", 0, 7), Some(("a\n b".to_string(), 0, 4)));
}

#[test]
fn shift_tab_with_nothing_to_remove_changes_nothing() {
    assert_eq!(do_dedent("ab", 0, 0), None);
    assert_eq!(do_dedent("a\nb", 0, 3), None);
}

#[test]
fn shift_tab_undoes_tab_on_a_selection() {
    let (t, p, s) = do_indent("x\n y\nz", 0, 5);
    assert_eq!(do_dedent(&t, p, s), Some(("x\n y\nz".to_string(), 0, 5)));
}

#[test]
fn tab_dispatch() {
    assert_eq!(handle_tab("ab", 0, 0, false), Some(("  ab".to_string(), 2, 2)));
    assert_eq!(handle_tab("  ab", 2, 2, true), Some(("ab".to_string(), 0, 0)));
    assert_eq!(handle_tab("ab", 0, 0, true), None);
}

#[test]
fn enter_carries_the_indentation() {
    assert_eq!(handle_indent("  foo", 5, get_line_indent), ("  foo\n  ".to_string(), 8));
    assert_eq!(handle_indent("a\n\tb c", 5, get_line_indent), ("a\n\tb \n\tc".to_string(), 7));
    assert_eq!(handle_indent("x", 0, get_line_indent), ("\nx".to_string(), 1));
}

#[test]
fn enter_asks_the_indentation_function_once_with_the_cursor_line() {
    let calls = std::cell::RefCell::new(Vec::new());
    let (text, cursor) = handle_indent("a\n  bc", 5, |line: &str| {
        calls.borrow_mut().push(line.to_string());
        ">>".to_string()
    });
    assert_eq!(*calls.borrow(), vec!["  b".to_string()]);
    assert_eq!(text, "a\n  b\n>>c");
    assert_eq!(cursor, 8);
}

#[test]
fn adjusted_positions_count_the_kept_characters() {
    // "abcdefghij" without "bc" and "fg": before position 8 ("i") the kept
    // characters are a, d, e, h.
    assert_eq!(adjust_after_removals(8, &[(1, 2), (5, 2)]), 4);
    assert_eq!(adjust_after_removals(6, &[(1, 2), (5, 2)]), 3);
    assert_eq!(adjust_after_removals(0, &[(1, 2), (5, 2)]), 0);
}

#[test]
fn line_starts_follow_each_break_before_the_end() {
    let text = "ab\ncd\nef\ngh";
    assert_eq!(collect_line_starts(text, 4, 7), vec![3, 6]);
    assert_eq!(collect_line_starts(text, 4, 6), vec![3]);
    assert_eq!(collect_line_starts(text, 0, 100), vec![0, 3, 6, 9]);
}
