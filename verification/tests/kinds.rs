use diagramide::kinds::{Window, WindowState};
use diagramide::mini_window::{HasName, RawContent, Visible};
use diagramide::plain_text_editor::PlainTextEditor;

#[test]
fn fresh_window_state_shows_only_the_logger() {
    let s = WindowState::new();
    assert!(s.log);
    assert!(!s.debug);
    assert!(!s.profiler);
}

#[test]
fn toggling_twice_restores_the_window_state() {
    let mut s = WindowState::new();
    s.toggle(Window::Debugger);
    assert!(s.debug);
    assert!(s.log);
    s.toggle(Window::Debugger);
    assert_eq!(s, WindowState::new());
    s.toggle(Window::Logger);
    assert!(!s.log);
    assert!(!s.debug);
}

#[test]
fn plain_text_editor_title_and_content() {
    let mut e = PlainTextEditor::new(7, "Notes".to_string());
    assert_eq!(e.get_title(), "Plain text - Notes");
    assert_eq!(e.get_name(), "Notes");
    e.set_raw_content("abc".to_string());
    assert_eq!(e.get_raw_content(), "abc");
    assert!(e.visible());
    e.toggle_visible();
    assert!(!e.visible());
    e.toggle_visible();
    assert!(e.visible());
}
