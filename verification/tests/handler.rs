use diagramide::handler::{HandlerState, Modal, Msg, Step, WindowEntry};
use diagramide::help::HelpTopic;
use diagramide::kinds::{EditorType, ExportType, Window, WindowState};
use diagramide::mini_window::WindowType;
use diagramide::references::{DepGraph, RefSource};

fn editor(id: u64, name: &str, kind: EditorType, raw: &str, pikchr: Option<&str>, target: Option<u64>) -> WindowEntry {
    WindowEntry {
        source: RefSource {
            id,
            name: name.to_string(),
            raw: Some(raw.to_string()),
            pikchr: pikchr.map(|p| p.to_string()),
        },
        kind: Some(kind),
        target,
        visible: true,
        has_error: true,
        error: None,
    }
}

fn render_window(id: u64, name: &str) -> WindowEntry {
    WindowEntry {
        source: RefSource { id, name: name.to_string(), raw: None, pikchr: None },
        kind: None,
        target: None,
        visible: true,
        has_error: false,
        error: None,
    }
}

fn state(windows: Vec<WindowEntry>) -> HandlerState {
    HandlerState {
        windows,
        deps: DepGraph::new(),
        help_topic: None,
        window_states: WindowState::new(),
        log: Vec::new(),
        modals: Vec::new(),
        repaint: false,
    }
}

fn queued(step: Step) -> Vec<Msg> {
    match step {
        Step::Queue(q) => q,
        other => panic!("expected a queue, got {other:?}"),
    }
}

#[test]
fn help_is_shown_and_hidden() {
    let mut st = state(vec![]);
    assert!(queued(st.handle_event(Msg::ShowHelp(HelpTopic::Tcl))).is_empty());
    assert_eq!(st.help_topic, Some(HelpTopic::Tcl));
    st.handle_event(Msg::HideHelp);
    assert_eq!(st.help_topic, None);
}

#[test]
fn utility_windows_and_windows_toggle() {
    let mut st = state(vec![render_window(5, "R")]);
    st.handle_event(Msg::ToggleWindow(Window::Debugger));
    assert!(st.window_states.debug);
    st.handle_event(Msg::ToggleWindowById(5));
    assert!(!st.windows[0].visible);
    st.handle_event(Msg::ToggleWindowById(5));
    assert!(st.windows[0].visible);
    st.handle_event(Msg::ToggleWindowById(99));
    assert!(st.windows[0].visible);
}

#[test]
fn refresh_reruns_the_source_in_its_language() {
    let mut st = state(vec![
        editor(1, "T", EditorType::Tcl, "return box", Some("box"), Some(2)),
        editor(3, "P", EditorType::PlainText, "text", None, None),
        render_window(2, "T render"),
    ]);
    let q = queued(st.handle_event(Msg::Refresh(1)));
    assert!(matches!(q.as_slice(), [Msg::UpdateTcl(1, s)] if s == "return box"));
    let q = queued(st.handle_event(Msg::Refresh(3)));
    assert!(matches!(q.as_slice(), [Msg::UpdatePlainText(3)]));
    assert!(queued(st.handle_event(Msg::Refresh(2))).is_empty());
    assert!(queued(st.handle_event(Msg::Refresh(42))).is_empty());
}

#[test]
fn an_update_expands_references_and_asks_for_evaluation() {
    let mut st = state(vec![
        editor(1, "LIB", EditorType::PlainText, "proc f {} {}", None, None),
        editor(2, "MAIN", EditorType::Tcl, "", Some(""), Some(3)),
    ]);
    match st.handle_event(Msg::UpdateTcl(2, "!!LIB!!; f".to_string())) {
        Step::Evaluate(EditorType::Tcl, 2, script) => assert_eq!(script, "proc f {} {}; f"),
        other => panic!("unexpected {other:?}"),
    }
    assert!(st.deps.contains(1, 2));
    let q = queued(st.handle_event(Msg::UpdatePlainText(1)));
    assert!(matches!(q.as_slice(), [Msg::Refresh(2)]));
}

#[test]
fn an_evaluation_answer_updates_or_reports() {
    let mut st = state(vec![editor(2, "MAIN", EditorType::Mruby, "", Some(""), Some(3))]);
    st.deps.insert(2, 7);
    let q = queued(st.handle_event(Msg::Evaluated(2, Ok("box".to_string()))));
    assert_eq!(q.len(), 2);
    match &q[0] {
        Msg::Batch(b) => {
            assert!(matches!(b.as_slice(), [Msg::ResetError(2), Msg::UpdatePikchrContent(2, a), Msg::UpdatePikchr(2, c)] if a == "box" && c == "box"));
        },
        other => panic!("unexpected {other:?}"),
    }
    assert!(matches!(q[1], Msg::Refresh(7)));
    let q = queued(st.handle_event(Msg::Evaluated(2, Err(("broken".to_string(), "\"broken\"".to_string())))));
    assert_eq!(st.windows[0].error.as_deref(), Some("broken"));
    assert_eq!(st.log, vec!["\"broken\"".to_string()]);
    assert!(matches!(q.as_slice(), [Msg::Refresh(7)]));
    st.handle_event(Msg::ResetError(2));
    assert_eq!(st.windows[0].error, None);
}

#[test]
fn rendering_fans_out_the_generated_pikchr() {
    let mut st = state(vec![editor(1, "A", EditorType::Pikchr, "box", Some("box"), Some(9))]);
    st.deps.insert(1, 4);
    match st.handle_event(Msg::UpdatePikchr(1, "box".to_string())) {
        Step::Render(1, code) => assert_eq!(code, "box"),
        other => panic!("unexpected {other:?}"),
    }
    let q = queued(st.handle_event(Msg::Rendered(1, Ok(()))));
    assert!(matches!(q.as_slice(), [Msg::ResetError(1), Msg::RecreateSvg(1), Msg::UpdatePikchr(4, c)] if c == "box"));
    let q = queued(st.handle_event(Msg::Rendered(1, Err(("e".to_string(), "E".to_string())))));
    assert!(matches!(q.as_slice(), [Msg::UpdatePikchr(4, _)]));
    assert_eq!(st.windows[0].error.as_deref(), Some("e"));
    st.handle_event(Msg::UpdatePikchrContent(1, "circle".to_string()));
    assert_eq!(st.windows[0].source.pikchr.as_deref(), Some("circle"));
}

#[test]
fn renaming_a_window_renames_its_render_window_too() {
    let mut st = state(vec![
        editor(1, "old", EditorType::Pikchr, "", Some(""), Some(2)),
        render_window(2, "old render"),
    ]);
    let q = queued(st.handle_event(Msg::RenameWindow(1, "renamed".to_string())));
    assert_eq!(st.windows[0].source.name, "renamed");
    assert!(matches!(q.as_slice(), [Msg::RenameWindow(2, n)] if n == "renamed"));
    let q = queued(st.handle_event(Msg::RenameWindow(2, "renamed".to_string())));
    assert!(q.is_empty());
    assert_eq!(st.windows[1].source.name, "renamed");
}

#[test]
fn deleting_a_window_removes_it_its_render_window_and_its_dependencies() {
    let mut st = state(vec![
        editor(1, "A", EditorType::Pikchr, "", Some(""), Some(2)),
        render_window(2, "A render"),
        editor(3, "B", EditorType::Pikchr, "", Some(""), Some(4)),
    ]);
    st.deps.insert(3, 1);
    st.deps.insert(1, 3);
    st.handle_event(Msg::DeleteWindow(1));
    assert_eq!(st.windows.len(), 1);
    assert_eq!(st.windows[0].source.id, 3);
    assert!(!st.deps.contains(3, 1));
    assert!(st.deps.contains(1, 3));
}

#[test]
fn resetting_the_workspace_empties_it_and_closes_the_dialog() {
    let mut st = state(vec![render_window(1, "x")]);
    st.deps.insert(1, 2);
    st.handle_event(Msg::ResetWorkspaceRequest);
    assert!(matches!(st.modals.as_slice(), [Modal::ConfirmReset]));
    let q = queued(st.handle_event(Msg::ResetWorkspace));
    assert!(st.windows.is_empty());
    assert!(st.deps.edges.is_empty());
    assert!(matches!(q.as_slice(), [Msg::PopModal]));
    st.handle_event(Msg::PopModal);
    assert!(st.modals.is_empty());
    st.handle_event(Msg::PopModal);
    assert!(st.modals.is_empty());
}

#[test]
fn checking_dependencies_drops_stale_ones() {
    let mut st = state(vec![
        editor(1, "A", EditorType::PlainText, "x", None, None),
        editor(2, "B", EditorType::Pikchr, "no reference", Some(""), None),
    ]);
    st.deps.insert(1, 2);
    st.handle_event(Msg::CheckDependencies);
    assert!(!st.deps.contains(1, 2));
}

#[test]
fn a_batch_is_queued_in_order() {
    let mut st = state(vec![]);
    let q = queued(st.handle_event(Msg::Batch(vec![Msg::HideHelp, Msg::PopModal])));
    assert!(matches!(q.as_slice(), [Msg::HideHelp, Msg::PopModal]));
}

#[test]
fn rename_request_queues_modal_repaints_and_can_be_confirmed() {
    let mut st = state(vec![editor(7, "editor", EditorType::PlainText, "", None, None)]);
    assert!(queued(st.handle_event(Msg::RequestRename(7))).is_empty());
    assert_eq!(st.modals.len(), 1);
    assert!(matches!(&st.modals[0], Modal::Rename(7, name) if name == "editor"));
    assert!(st.repaint);
    st.handle_event(Msg::PopModal);
    st.handle_event(Msg::RenameWindow(7, "renamed".to_string()));
    assert!(st.modals.is_empty());
    assert_eq!(st.windows[0].source.name, "renamed");
}

#[test]
fn renaming_a_missing_window_asks_nothing() {
    let mut st = state(vec![]);
    st.handle_event(Msg::RequestRename(3));
    assert!(st.modals.is_empty());
    assert!(!st.repaint);
}

#[test]
fn dialogs_wait_in_order() {
    let mut st = state(vec![]);
    st.handle_event(Msg::ExportModal(2, "d".to_string(), ExportType::Png));
    st.handle_event(Msg::FontSizeModal(1));
    st.handle_event(Msg::SaveWorkspace);
    st.handle_event(Msg::LoadWorkspaceRequest);
    assert!(matches!(&st.modals[0], Modal::Export(2, n, ExportType::Png) if n == "d"));
    assert!(matches!(&st.modals[1], Modal::StringEdit(l, v) if l == "VALUE" && v == "abc"));
    assert!(matches!(st.modals[2], Modal::SaveWorkspace));
    assert!(matches!(st.modals[3], Modal::LoadWorkspace));
    st.handle_event(Msg::PopModal);
    assert!(matches!(&st.modals[0], Modal::StringEdit(..)));
}

#[test]
fn exporting_writes_then_closes_the_dialog() {
    let mut st = state(vec![]);
    match st.handle_event(Msg::Export(2, "out.svg".to_string(), ExportType::Svg)) {
        Step::Export(2, f, ExportType::Svg) => assert_eq!(f, "out.svg"),
        other => panic!("unexpected {other:?}"),
    }
    assert!(matches!(queued(st.handle_event(Msg::Exported)).as_slice(), [Msg::PopModal]));
}

#[test]
fn copying_pikchr_expands_references() {
    let mut st = state(vec![
        editor(1, "A", EditorType::Pikchr, "", Some("circle"), Some(10)),
        editor(2, "B", EditorType::Pikchr, "", Some("box; $$A$$"), Some(11)),
    ]);
    match st.handle_event(Msg::ExportPikchrToClipboard(2)) {
        Step::Clipboard(t) => assert_eq!(t, "box; circle;"),
        other => panic!("unexpected {other:?}"),
    }
    assert!(st.deps.contains(1, 2));
    assert!(queued(st.handle_event(Msg::ExportPikchrToClipboard(9))).is_empty());
}

#[test]
fn redrawing_fans_out_to_dependents() {
    let mut st = state(vec![render_window(1, "x")]);
    assert!(matches!(st.handle_event(Msg::RequestRedraw(1)), Step::Redraw(1)));
    st.deps.insert(1, 2);
    st.deps.insert(1, 3);
    let q = queued(st.handle_event(Msg::Redrawn(1)));
    assert_eq!(q.len(), 2);
    assert!(q.iter().any(|m| matches!(m, Msg::RequestRedraw(2))));
    assert!(q.iter().any(|m| matches!(m, Msg::RequestRedraw(3))));
    assert!(st.repaint);
    let mut looped = state(vec![]);
    looped.deps.insert(4, 4);
    assert!(queued(looped.handle_event(Msg::Redrawn(4))).is_empty());
    assert!(!looped.repaint);
}

#[test]
fn new_windows_come_with_their_render_window() {
    let mut st = state(vec![]);
    st.handle_event(Msg::NewWindow(WindowType::TclEditor, 5, "t".to_string(), 6));
    assert_eq!(st.windows.len(), 2);
    assert_eq!(st.windows[0].kind, Some(EditorType::Tcl));
    assert_eq!(st.windows[0].target, Some(6));
    assert_eq!(st.windows[0].source.pikchr.as_deref(), Some(""));
    assert_eq!(st.windows[1].source.id, 6);
    assert_eq!(st.windows[1].kind, None);
    st.handle_event(Msg::NewWindow(WindowType::PlainTextEditor, 7, "p".to_string(), 8));
    assert_eq!(st.windows.len(), 3);
    assert_eq!(st.windows[2].target, None);
    assert_eq!(st.windows[2].source.pikchr, None);
    st.handle_event(Msg::NewWindow(WindowType::SvgWindow, 9, "s".to_string(), 10));
    assert_eq!(st.windows.len(), 3);
    let q = queued(st.handle_event(Msg::ReloadSvgs));
    assert!(matches!(q.as_slice(), [Msg::RequestRedraw(6)]));
}

#[test]
fn recreating_a_render_window_repoints_the_editor() {
    let mut st = state(vec![editor(1, "A", EditorType::Pikchr, "", Some("box"), Some(2))]);
    assert!(matches!(st.handle_event(Msg::RecreateSvg(1)), Step::NewRenderWindow(1)));
    let q = queued(st.handle_event(Msg::AttachRenderWindow(1, 3)));
    assert!(matches!(q.as_slice(), [Msg::UpdatePikchr(1, c)] if c == "box"));
    assert_eq!(st.windows[0].target, Some(3));
    assert_eq!(st.windows[1].source.id, 3);
    assert_eq!(st.windows[1].source.name, "A");
}

#[test]
fn loading_a_workspace_replaces_it() {
    let mut st = state(vec![render_window(1, "x")]);
    let mut g = DepGraph::new();
    g.insert(5, 6);
    let q = queued(st.handle_event(Msg::LoadWorkspace(vec![render_window(5, "y")], g)));
    assert!(matches!(q.as_slice(), [Msg::PopModal]));
    assert_eq!(st.windows.len(), 1);
    assert_eq!(st.windows[0].source.id, 5);
    assert!(st.deps.contains(5, 6));
    assert!(queued(st.handle_event(Msg::UpdateContent(5, "z".to_string()))).is_empty());
}

#[test]
fn rendering_redraws_a_render_window_that_is_still_there() {
    let mut st = state(vec![
        editor(1, "A", EditorType::Pikchr, "box", Some("box"), Some(9)),
        render_window(9, "A"),
    ]);
    let q = queued(st.handle_event(Msg::Rendered(1, Ok(()))));
    assert!(matches!(q.as_slice(), [Msg::ResetError(1), Msg::RequestRedraw(9)]));
    let mut plain = state(vec![editor(2, "P", EditorType::PlainText, "x", None, None)]);
    let q = queued(plain.handle_event(Msg::Rendered(2, Ok(()))));
    assert!(matches!(q.as_slice(), [Msg::ResetError(2)]));
}
