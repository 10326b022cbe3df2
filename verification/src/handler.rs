//! The message handler's decisions: how each message changes the state that
//! the windows share, which messages follow it, and which outside work
//! (evaluating a script, rendering Pikchr) it asks for. Running that work,
//! drawing and the queue itself are the application's.
use vstd::prelude::*;
use crate::help::HelpTopic;
use crate::kinds::{EditorType, ExportType, Window, WindowState};
use crate::mini_window::WindowType;
use crate::references::{
    clean_old_deps, new_deps, pikchr_reps, replace_content, replace_pikchr_content, sources_view,
    still_referenced, three_passes, DepGraph, RefSource, RefSourceV,
};

verus! {

/// A window as the handler sees it: its reference data (id, name, raw
/// source, generated Pikchr), its language if it is an editor (a render
/// window has none), its paired render window, whether it is shown, and the
/// error it shows if it can show one.
#[derive(Debug)]
pub struct WindowEntry {
    pub source: RefSource,
    pub kind: Option<EditorType>,
    pub target: Option<u64>,
    pub visible: bool,
    pub has_error: bool,
    pub error: Option<String>,
}

impl WindowEntry {
    /// A copy of the entry.
    pub fn clone_entry(&self) -> (r: WindowEntry)
        ensures
            r == *self,
    {
        WindowEntry {
            source: self.source.clone_source(),
            kind: self.kind,
            target: self.target,
            visible: self.visible,
            has_error: self.has_error,
            error: match &self.error {
                Some(e) => Some(e.clone()),
                None => None,
            },
        }
    }
}

/// A dialog waiting to be shown.
#[derive(Debug)]
pub enum Modal {
    /// Export the render window with the given id, called by the given
    /// name, in the given format.
    Export(u64, String, ExportType),
    /// Edit a text value: its label and its current value.
    StringEdit(String, String),
    /// Rename the window with the given id; its current name.
    Rename(u64, String),
    /// Ask before emptying the workspace.
    ConfirmReset,
    /// Choose where to save the workspace.
    SaveWorkspace,
    /// Choose a workspace file to load.
    LoadWorkspace,
}

/// What the windows share: the windows, the dependencies between them, the
/// help topic shown, the utility windows shown, the log, the dialogs
/// waiting, front first, and whether the screen should be repainted.
pub struct HandlerState {
    pub windows: Vec<WindowEntry>,
    pub deps: DepGraph,
    pub help_topic: Option<HelpTopic>,
    pub window_states: WindowState,
    pub log: Vec<String>,
    pub modals: Vec<Modal>,
    pub repaint: bool,
}

/// The mathematical content of a `HandlerState`.
pub struct HandlerView {
    pub windows: Seq<WindowEntry>,
    pub deps: Set<(u64, u64)>,
    pub help_topic: Option<HelpTopic>,
    pub window_states: WindowState,
    pub log: Seq<String>,
    pub modals: Seq<Modal>,
    pub repaint: bool,
}

impl View for HandlerState {
    type V = HandlerView;

    open spec fn view(&self) -> HandlerView {
        HandlerView {
            windows: self.windows@,
            deps: self.deps@,
            help_topic: self.help_topic,
            window_states: self.window_states,
            log: self.log@,
            modals: self.modals@,
            repaint: self.repaint,
        }
    }
}

/// A message to the handler.
#[derive(Debug)]
pub enum Msg {
    /// Several messages, queued in order.
    Batch(Vec<Msg>),
    /// A message for a window, delivered after the given number of
    /// milliseconds unless a later one for the same window replaces it.
    Debounce(u64, u64, Box<Msg>),
    /// Closes the front dialog.
    PopModal,
    /// Asks where to export the render window with the given id, called by
    /// the given name, in the given format.
    ExportModal(u64, String, ExportType),
    /// Exports the render window with the given id to the given file in
    /// the given format.
    Export(u64, String, ExportType),
    /// The export was written.
    Exported,
    /// Copies a window's expanded Pikchr to the clipboard.
    ExportPikchrToClipboard(u64),
    /// Asks for an editor's font size.
    FontSizeModal(u64),
    /// Asks for a window's new name.
    RequestRename(u64),
    /// Drops the dependencies that no longer hold.
    CheckDependencies,
    /// Shows the help for a topic.
    ShowHelp(HelpTopic),
    /// Hides the help.
    HideHelp,
    /// Renames a window, and its render window with it.
    RenameWindow(u64, String),
    /// Redraws a render window from its diagram.
    RequestRedraw(u64),
    /// A render window was redrawn.
    Redrawn(u64),
    /// New Pikchr source for a window.
    UpdatePikchr(u64, String),
    /// New Prolog source for a window.
    UpdateProlog(u64, String),
    /// New Tcl source for a window.
    UpdateTcl(u64, String),
    /// New Ruby source for a window.
    UpdateMruby(u64, String),
    /// A plain-text window changed.
    UpdatePlainText(u64),
    /// The answer of an evaluation for a window: the Pikchr produced, or
    /// the error to show and the line to log.
    Evaluated(u64, Result<String, (String, String)>),
    /// The answer of a rendering for a window: success, or the error to
    /// show and the line to log.
    Rendered(u64, Result<(), (String, String)>),
    /// Clears a window's error.
    ResetError(u64),
    /// New content for a window, which changes nothing.
    UpdateContent(u64, String),
    /// Sets the Pikchr a window generates.
    UpdatePikchrContent(u64, String),
    /// Deletes a window and its render window.
    DeleteWindow(u64),
    /// Shows or hides a utility window.
    ToggleWindow(Window),
    /// Shows or hides a window.
    ToggleWindowById(u64),
    /// Creates a window of the given kind with the given id, its render
    /// window (if it has one) with the second id, both called by the given
    /// name.
    NewWindow(WindowType, u64, String, u64),
    /// Gives the window with the given id a new render window, under a
    /// fresh id that the application supplies.
    RecreateSvg(u64),
    /// Gives the window with the first id a new render window with the
    /// second id.
    AttachRenderWindow(u64, u64),
    /// Redraws every render window.
    ReloadSvgs,
    /// Re-runs a window's source.
    Refresh(u64),
    /// Asks before emptying the workspace.
    ResetWorkspaceRequest,
    /// Empties the workspace.
    ResetWorkspace,
    /// Asks where to save the workspace.
    SaveWorkspace,
    /// Asks which workspace to load.
    LoadWorkspaceRequest,
    /// Replaces the workspace by a loaded one: its windows and their
    /// dependencies.
    LoadWorkspace(Vec<WindowEntry>, DepGraph),
}

/// What a message leads to.
#[derive(Debug)]
pub enum Step {
    /// These messages, queued in order.
    Queue(Vec<Msg>),
    /// Evaluate the expanded script in the given language for the window;
    /// the answer comes back as `Evaluated`.
    Evaluate(EditorType, u64, String),
    /// Render the expanded Pikchr for the window; the answer comes back as
    /// `Rendered`.
    Render(u64, String),
    /// Write the diagram of the render window to the file in the format;
    /// once written, the answer comes back as `Exported`.
    Export(u64, String, ExportType),
    /// Put the text on the clipboard.
    Clipboard(String),
    /// Redraw the render window from its diagram; once drawn, the answer
    /// comes back as `Redrawn`.
    Redraw(u64),
    /// Choose a fresh id for a new render window of the window with the
    /// given id; the answer is `AttachRenderWindow` with both ids, handled
    /// at once.
    NewRenderWindow(u64),
}

/// The mathematical content of a `Step`.
pub enum StepV {
    Queue(Seq<Msg>),
    Evaluate(EditorType, u64, Seq<char>),
    Render(u64, Seq<char>),
    Export(u64, Seq<char>, ExportType),
    Clipboard(Seq<char>),
    Redraw(u64),
    NewRenderWindow(u64),
}

impl View for Step {
    type V = StepV;

    open spec fn view(&self) -> StepV {
        match self {
            Step::Queue(v) => StepV::Queue(v@),
            Step::Evaluate(k, id, s) => StepV::Evaluate(*k, *id, s@),
            Step::Render(id, s) => StepV::Render(*id, s@),
            Step::Export(id, f, k) => StepV::Export(*id, f@, *k),
            Step::Clipboard(t) => StepV::Clipboard(t@),
            Step::Redraw(id) => StepV::Redraw(*id),
            Step::NewRenderWindow(id) => StepV::NewRenderWindow(*id),
        }
    }
}

/// The position of the window with id `id`, if there is one.
pub open spec fn window_index(ws: Seq<WindowEntry>, id: u64) -> Option<int>
    decreases ws.len(),
{
    if ws.len() == 0 {
        None
    } else if ws.last().source.id == id {
        Some(ws.len() - 1)
    } else {
        window_index(ws.drop_last(), id)
    }
}

/// The reference data of the windows.
pub open spec fn window_sources(ws: Seq<WindowEntry>) -> Seq<RefSourceV> {
    ws.map_values(|w: WindowEntry| w.source@)
}

/// `q` holds `Refresh(d)` for each window `d` that depends on `id`, each
/// once, in some order.
pub open spec fn refreshes_dependents(q: Seq<Msg>, deps: Set<(u64, u64)>, id: u64) -> bool {
    &&& forall|i: int| 0 <= i < q.len() ==> (#[trigger] q[i]) is Refresh
    &&& forall|d: u64| deps.contains((id, d)) <==> q.contains(Msg::Refresh(d))
    &&& q.no_duplicates()
}

/// Finds the window with id `id`.
fn find_window(ws: &Vec<WindowEntry>, id: u64) -> (r: Option<usize>)
    ensures
        match r {
            Some(k) => k < ws.len() && window_index(ws@, id) == Some(k as int),
            None => window_index(ws@, id) is None,
        },
{
    let mut k = ws.len();
    assert(ws@.take(k as int) =~= ws@);
    while k > 0
        invariant
            0 <= k <= ws.len(),
            window_index(ws@, id) == window_index(ws@.take(k as int), id),
        decreases k,
    {
        assert(ws@.take(k as int).last() == ws@[k - 1]);
        if ws[k - 1].source.id == id {
            return Some(k - 1);
        }
        assert(ws@.take(k as int).drop_last() =~= ws@.take(k - 1));
        k = k - 1;
    }
    None
}

/// Appends `Refresh(d)` for each window `d` that depends on `id`.
fn append_refreshes(q: &mut Vec<Msg>, deps: &DepGraph, id: u64)
    ensures
        final(q)@.len() >= old(q)@.len(),
        final(q)@.take(old(q)@.len() as int) == old(q)@,
        refreshes_dependents(final(q)@.skip(old(q)@.len() as int), deps@, id),
{
    let ghost start = q@;
    let ds = deps.dependents_of(id);
    let mut k: usize = 0;
    while k < ds.len()
        invariant
            0 <= k <= ds.len(),
            ds@.no_duplicates(),
            q@.len() == start.len() + k,
            q@.take(start.len() as int) == start,
            forall|i: int| 0 <= i < k ==> q@[start.len() + i] == Msg::Refresh(#[trigger] ds@[i]),
        decreases ds.len() - k,
    {
        q.push(Msg::Refresh(ds[k]));
        assert(q@.take(start.len() as int) =~= start);
        k = k + 1;
    }
    let ghost r = q@.skip(start.len() as int);
    assert forall|i: int| 0 <= i < r.len() implies r[i] == Msg::Refresh(#[trigger] ds@[i]) by {
        assert(r[i] == q@[start.len() + i]);
    }
    assert forall|d: u64| deps@.contains((id, d)) <==> r.contains(Msg::Refresh(d)) by {
        if ds@.contains(d) {
            let i = choose|i: int| 0 <= i < ds@.len() && ds@[i] == d;
            assert(r[i] == Msg::Refresh(d));
        }
        if r.contains(Msg::Refresh(d)) {
            let i = choose|i: int| 0 <= i < r.len() && r[i] == Msg::Refresh(d);
            assert(r[i] == Msg::Refresh(ds@[i]));
            assert(ds@.contains(d));
        }
    }
    assert forall|i: int, j: int| 0 <= i < j < r.len() implies r[i] != r[j] by {
        assert(r[i] == Msg::Refresh(ds@[i]));
        assert(r[j] == Msg::Refresh(ds@[j]));
    }
    assert forall|i: int| 0 <= i < r.len() implies (#[trigger] r[i]) is Refresh by {
        assert(r[i] == Msg::Refresh(ds@[i]));
    }
}

/// `RequestRedraw(d)` for each window `d` that depends on `id`.
fn redraw_dependents(deps: &DepGraph, id: u64) -> (q: Vec<Msg>)
    ensures
        redraws_dependents(q@, deps@, id),
{
    let ds = deps.dependents_of(id);
    let mut q: Vec<Msg> = Vec::new();
    let mut k: usize = 0;
    while k < ds.len()
        invariant
            0 <= k <= ds.len(),
            ds@.no_duplicates(),
            q@.len() == k,
            forall|i: int| 0 <= i < k ==> q@[i] == Msg::RequestRedraw(#[trigger] ds@[i]),
        decreases ds.len() - k,
    {
        q.push(Msg::RequestRedraw(ds[k]));
        k = k + 1;
    }
    assert forall|d: u64| deps@.contains((id, d)) <==> q@.contains(Msg::RequestRedraw(d)) by {
        if ds@.contains(d) {
            let i = choose|i: int| 0 <= i < ds@.len() && ds@[i] == d;
            assert(q@[i] == Msg::RequestRedraw(d));
        }
        if q@.contains(Msg::RequestRedraw(d)) {
            let i = choose|i: int| 0 <= i < q@.len() && q@[i] == Msg::RequestRedraw(d);
            assert(q@[i] == Msg::RequestRedraw(ds@[i]));
            assert(ds@.contains(d));
        }
    }
    assert forall|i: int, j: int| 0 <= i < j < q@.len() implies q@[i] != q@[j] by {
        assert(q@[i] == Msg::RequestRedraw(ds@[i]));
        assert(q@[j] == Msg::RequestRedraw(ds@[j]));
    }
    assert forall|i: int| 0 <= i < q@.len() implies (#[trigger] q@[i]) is RequestRedraw by {
        assert(q@[i] == Msg::RequestRedraw(ds@[i]));
    }
    q
}

/// `RequestRedraw` for each render window of `ws`, in order.
fn redraw_renders(ws: &Vec<WindowEntry>) -> (q: Vec<Msg>)
    ensures
        q@ == render_redraws(ws@),
{
    let mut q: Vec<Msg> = Vec::new();
    let mut k: usize = 0;
    while k < ws.len()
        invariant
            0 <= k <= ws.len(),
            q@ == render_redraws(ws@.take(k as int)),
        decreases ws.len() - k,
    {
        assert(ws@.take(k + 1).drop_last() =~= ws@.take(k as int));
        assert(ws@.take(k + 1).last() == ws@[k as int]);
        if ws[k].kind.is_none() {
            q.push(Msg::RequestRedraw(ws[k].source.id));
        }
        k = k + 1;
    }
    assert(ws@.take(ws.len() as int) =~= ws@);
    q
}

/// Puts `w` in place of the window with the same id, or adds it at the
/// end when there is none.
fn put_window_in(ws: &mut Vec<WindowEntry>, w: WindowEntry)
    ensures
        final(ws)@ == put_window(old(ws)@, w),
{
    match find_window(ws, w.source.id) {
        Some(k) => {
            ws.set(k, w);
        },
        None => {
            ws.push(w);
        },
    }
}

/// A new, shown, empty editor of language `kind`.
fn new_editor(kind: EditorType, id: u64, name: String, target: Option<u64>) -> (w: WindowEntry)
    ensures
        fresh_editor(w, kind, id, name@, target),
{
    let pikchr = match kind {
        EditorType::PlainText => None,
        _ => Some(String::new()),
    };
    WindowEntry {
        source: RefSource { id, name, raw: Some(String::new()), pikchr },
        kind: Some(kind),
        target,
        visible: true,
        has_error: true,
        error: None,
    }
}

/// A new, shown render window.
fn new_render(id: u64, name: String) -> (w: WindowEntry)
    ensures
        fresh_render(w, id, name@),
{
    WindowEntry {
        source: RefSource { id, name, raw: None, pikchr: None },
        kind: None,
        target: None,
        visible: true,
        has_error: false,
        error: None,
    }
}

/// Appends `UpdatePikchr(d, c)` for each window `d` that depends on `id`.
fn append_pikchr_updates(q: &mut Vec<Msg>, deps: &DepGraph, id: u64, c: &String)
    ensures
        final(q)@.len() >= old(q)@.len(),
        final(q)@.take(old(q)@.len() as int) == old(q)@,
        ({
            let rest = final(q)@.skip(old(q)@.len() as int);
            &&& forall|i: int| 0 <= i < rest.len() ==> ((#[trigger] rest[i]) matches Msg::UpdatePikchr(_, x) && x == *c)
            &&& forall|d: u64| deps@.contains((id, d)) <==> rest.contains(Msg::UpdatePikchr(d, *c))
            &&& rest.no_duplicates()
        }),
{
    let ghost start = q@;
    let ds = deps.dependents_of(id);
    let mut k: usize = 0;
    while k < ds.len()
        invariant
            0 <= k <= ds.len(),
            ds@.no_duplicates(),
            q@.len() == start.len() + k,
            q@.take(start.len() as int) == start,
            forall|i: int| 0 <= i < k ==> q@[start.len() + i] == Msg::UpdatePikchr(#[trigger] ds@[i], *c),
        decreases ds.len() - k,
    {
        q.push(Msg::UpdatePikchr(ds[k], c.clone()));
        assert(q@.take(start.len() as int) =~= start);
        k = k + 1;
    }
    let ghost r = q@.skip(start.len() as int);
    assert forall|i: int| 0 <= i < r.len() implies r[i] == Msg::UpdatePikchr(#[trigger] ds@[i], *c) by {
        assert(r[i] == q@[start.len() + i]);
    }
    assert forall|d: u64| deps@.contains((id, d)) <==> r.contains(Msg::UpdatePikchr(d, *c)) by {
        if ds@.contains(d) {
            let i = choose|i: int| 0 <= i < ds@.len() && ds@[i] == d;
            assert(r[i] == Msg::UpdatePikchr(d, *c));
        }
        if r.contains(Msg::UpdatePikchr(d, *c)) {
            let i = choose|i: int| 0 <= i < r.len() && r[i] == Msg::UpdatePikchr(d, *c);
            assert(r[i] == Msg::UpdatePikchr(ds@[i], *c));
            assert(ds@.contains(d));
        }
    }
    assert forall|i: int, j: int| 0 <= i < j < r.len() implies r[i] != r[j] by {
        assert(r[i] == Msg::UpdatePikchr(ds@[i], *c));
        assert(r[j] == Msg::UpdatePikchr(ds@[j], *c));
    }
    assert forall|i: int| 0 <= i < r.len() implies ((#[trigger] r[i]) matches Msg::UpdatePikchr(_, x) && x == *c) by {
        assert(r[i] == Msg::UpdatePikchr(ds@[i], *c));
    }
}

/// The reference data of the windows.
fn sources_of(ws: &Vec<WindowEntry>) -> (r: Vec<RefSource>)
    ensures
        sources_view(r@) == window_sources(ws@),
{
    let mut r: Vec<RefSource> = Vec::new();
    let mut k: usize = 0;
    while k < ws.len()
        invariant
            0 <= k <= ws.len(),
            sources_view(r@) == window_sources(ws@.take(k as int)),
        decreases ws.len() - k,
    {
        let ghost before = r@;
        r.push(ws[k].source.clone_source());
        assert(sources_view(r@) =~= sources_view(before).push(ws@[k as int].source@));
        assert(window_sources(ws@.take(k + 1)) =~= window_sources(ws@.take(k as int)).push(ws@[k as int].source@));
        k = k + 1;
    }
    assert(ws@.take(ws.len() as int) =~= ws@);
    r
}

/// The windows of `ws` other than `a` and, when it is given, `b`.
fn remove_windows(ws: &Vec<WindowEntry>, a: u64, b: Option<u64>) -> (r: Vec<WindowEntry>)
    ensures
        r@ == without_windows(ws@, a, b),
{
    let mut r: Vec<WindowEntry> = Vec::new();
    let mut k: usize = 0;
    while k < ws.len()
        invariant
            0 <= k <= ws.len(),
            r@ == without_windows(ws@.take(k as int), a, b),
        decreases ws.len() - k,
    {
        let id = ws[k].source.id;
        assert(ws@.take(k + 1).drop_last() =~= ws@.take(k as int));
        assert(ws@.take(k + 1).last() == ws@[k as int]);
        let drop = id == a || match b {
            Some(x) => x == id,
            None => false,
        };
        if !drop {
            r.push(ws[k].clone_entry());
        }
        k = k + 1;
    }
    assert(ws@.take(ws.len() as int) =~= ws@);
    r
}

/// The message that re-runs a window of language `kind` on `content`.
fn make_update(kind: EditorType, id: u64, content: String) -> (r: Msg)
    ensures
        r == update_msg(kind, id, content),
{
    match kind {
        EditorType::Prolog => Msg::UpdateProlog(id, content),
        EditorType::Pikchr => Msg::UpdatePikchr(id, content),
        EditorType::Tcl => Msg::UpdateTcl(id, content),
        EditorType::Mruby => Msg::UpdateMruby(id, content),
        EditorType::PlainText => Msg::UpdatePlainText(id),
    }
}

/// The windows of `ws` other than `a` and, when it is given, `b`.
pub open spec fn without_windows(ws: Seq<WindowEntry>, a: u64, b: Option<u64>) -> Seq<WindowEntry>
    decreases ws.len(),
{
    if ws.len() == 0 {
        ws
    } else {
        let prev = without_windows(ws.drop_last(), a, b);
        let id = ws.last().source.id;
        if id == a || b == Some(id) {
            prev
        } else {
            prev.push(ws.last())
        }
    }
}

/// The message that re-runs a window of language `kind` on `content`.
pub open spec fn update_msg(kind: EditorType, id: u64, content: String) -> Msg {
    match kind {
        EditorType::Prolog => Msg::UpdateProlog(id, content),
        EditorType::Pikchr => Msg::UpdatePikchr(id, content),
        EditorType::Tcl => Msg::UpdateTcl(id, content),
        EditorType::Mruby => Msg::UpdateMruby(id, content),
        EditorType::PlainText => Msg::UpdatePlainText(id),
    }
}

/// The dependencies after the references in `content` of window `id` were
/// expanded: generated Pikchr first, then raw sources.
pub open spec fn deps_after_expanding(s: HandlerView, id: u64, content: Seq<char>) -> Set<(u64, u64)> {
    let src = window_sources(s.windows);
    s.deps.union(crate::references::new_deps(src, id, content, false)).union(
        crate::references::new_deps(
            src,
            id,
            crate::references::three_passes(content, crate::references::pikchr_reps(src, id)),
            true,
        ),
    )
}

/// `content` of window `id` with its references expanded.
pub open spec fn expanded(s: HandlerView, id: u64, content: Seq<char>) -> Seq<char> {
    let src = window_sources(s.windows);
    crate::references::three_passes(
        crate::references::three_passes(content, crate::references::pikchr_reps(src, id)),
        crate::references::raw_reps(src, id),
    )
}

/// `q` holds `RequestRedraw(d)` for each window `d` that depends on `id`,
/// each once, in some order.
pub open spec fn redraws_dependents(q: Seq<Msg>, deps: Set<(u64, u64)>, id: u64) -> bool {
    &&& forall|i: int| 0 <= i < q.len() ==> (#[trigger] q[i]) is RequestRedraw
    &&& forall|d: u64| deps.contains((id, d)) <==> q.contains(Msg::RequestRedraw(d))
    &&& q.no_duplicates()
}

/// `RequestRedraw` for each render window of `ws`, in order.
pub open spec fn render_redraws(ws: Seq<WindowEntry>) -> Seq<Msg>
    decreases ws.len(),
{
    if ws.len() == 0 {
        Seq::empty()
    } else {
        let prev = render_redraws(ws.drop_last());
        if ws.last().kind is None {
            prev.push(Msg::RequestRedraw(ws.last().source.id))
        } else {
            prev
        }
    }
}

/// `ws` with `w` in place of the window with the same id, or with `w`
/// added at the end when there is none.
pub open spec fn put_window(ws: Seq<WindowEntry>, w: WindowEntry) -> Seq<WindowEntry> {
    match window_index(ws, w.source.id) {
        Some(k) => ws.update(k, w),
        None => ws.push(w),
    }
}

/// The language of the editor that a window kind makes, if it makes one.
pub open spec fn editor_kind(t: WindowType) -> Option<EditorType> {
    match t {
        WindowType::PikchrEditor => Some(EditorType::Pikchr),
        WindowType::PrologEditor => Some(EditorType::Prolog),
        WindowType::TclEditor => Some(EditorType::Tcl),
        WindowType::MrubyEditor => Some(EditorType::Mruby),
        WindowType::PlainTextEditor => Some(EditorType::PlainText),
        WindowType::SvgWindow => None,
    }
}

/// `w` is a new, shown, empty editor of language `kind` with id `id`,
/// called `name`, paired with the render window `target`, showing no
/// error. A plain-text editor generates no Pikchr.
pub open spec fn fresh_editor(w: WindowEntry, kind: EditorType, id: u64, name: Seq<char>, target: Option<u64>) -> bool {
    &&& w.source.id == id
    &&& w.source.name@ == name
    &&& w.source.raw is Some
    &&& w.source.raw->0@ == Seq::<char>::empty()
    &&& if kind == EditorType::PlainText {
        w.source.pikchr is None
    } else {
        w.source.pikchr is Some && w.source.pikchr->0@ == Seq::<char>::empty()
    }
    &&& w.kind == Some(kind)
    &&& w.target == target
    &&& w.visible
    &&& w.has_error
    &&& w.error is None
}

/// `w` is a new, shown render window with id `id`, called `name`.
pub open spec fn fresh_render(w: WindowEntry, id: u64, name: Seq<char>) -> bool {
    &&& w.source.id == id
    &&& w.source.name@ == name
    &&& w.source.raw is None
    &&& w.source.pikchr is None
    &&& w.kind is None
    &&& w.target is None
    &&& w.visible
    &&& !w.has_error
    &&& w.error is None
}

/// The name of the window with id `id`, empty if there is none.
pub open spec fn name_or_empty(ws: Seq<WindowEntry>, id: u64) -> Seq<char> {
    match window_index(ws, id) {
        Some(k) => ws[k].source.name@,
        None => Seq::empty(),
    }
}

/// What follows a successful rendering for the window with id `id`: when
/// it has a render window, that window is redrawn if it is still there, and
/// recreated if it is gone.
pub open spec fn render_follow_up(ws: Seq<WindowEntry>, id: u64) -> Seq<Msg> {
    match window_index(ws, id) {
        Some(k) if ws[k].target is Some => {
            let tg = ws[k].target->0;
            match window_index(ws, tg) {
                Some(j) if ws[j].kind is None => seq![Msg::RequestRedraw(tg)],
                _ => seq![Msg::RecreateSvg(id)],
            }
        },
        _ => Seq::empty(),
    }
}

/// `modals` is `before` with a dialog added at the back.
pub open spec fn pushed_modal(before: Seq<Modal>, after: Seq<Modal>) -> bool {
    after.len() == before.len() + 1 && after.drop_last() == before
}

/// The step queues nothing.
pub open spec fn queues_nothing(step: StepV) -> bool {
    step == StepV::Queue(Seq::empty())
}

/// Handling `msg` in the state `s` gives the state `t` and the step `step`.
pub open spec fn handled(s: HandlerView, msg: Msg, t: HandlerView, step: StepV) -> bool {
    match msg {
        Msg::Debounce(_, _, _) => false,
        Msg::Batch(v) => t == s && step == StepV::Queue(v@),
        Msg::PopModal => t == (HandlerView {
            modals: if s.modals.len() > 0 {
                s.modals.drop_first()
            } else {
                s.modals
            },
            ..s
        }) && queues_nothing(step),
        Msg::ExportModal(id, name, kind) => t == (HandlerView {
            modals: s.modals.push(Modal::Export(id, name, kind)),
            ..s
        }) && queues_nothing(step),
        Msg::Export(id, file, kind) => t == s && step == StepV::Export(id, file@, kind),
        Msg::Exported => t == s && step == StepV::Queue(seq![Msg::PopModal]),
        Msg::ExportPikchrToClipboard(id) => match window_index(s.windows, id) {
            Some(k) if s.windows[k].source.pikchr is Some => {
                let c = s.windows[k].source.pikchr->0@;
                let src = window_sources(s.windows);
                &&& t == (HandlerView { deps: s.deps.union(new_deps(src, id, c, false)), ..s })
                &&& step == StepV::Clipboard(three_passes(c, pikchr_reps(src, id)))
            },
            _ => t == s && queues_nothing(step),
        },
        Msg::FontSizeModal(_) => {
            &&& pushed_modal(s.modals, t.modals)
            &&& t.modals.last() matches Modal::StringEdit(label, value)
            &&& label@ == "VALUE"@
            &&& value@ == "abc"@
            &&& t == (HandlerView { modals: t.modals, ..s })
            &&& queues_nothing(step)
        },
        Msg::RequestRename(id) => match window_index(s.windows, id) {
            Some(k) => t == (HandlerView {
                modals: s.modals.push(Modal::Rename(id, s.windows[k].source.name)),
                repaint: true,
                ..s
            }) && queues_nothing(step),
            None => t == s && queues_nothing(step),
        },
        Msg::RequestRedraw(id) => t == s && step == StepV::Redraw(id),
        Msg::Redrawn(id) => if s.deps.contains((id, id)) {
            t == s && queues_nothing(step)
        } else {
            &&& t == (HandlerView { repaint: true, ..s })
            &&& step matches StepV::Queue(q)
            &&& redraws_dependents(q, s.deps, id)
        },
        Msg::UpdateContent(_, _) => t == s && queues_nothing(step),
        Msg::NewWindow(wt, eid, name, sid) => queues_nothing(step) && match editor_kind(wt) {
            None => t == s,
            Some(EditorType::PlainText) => exists|e: WindowEntry|
                #[trigger] fresh_editor(e, EditorType::PlainText, eid, name@, None)
                    && t == (HandlerView { windows: put_window(s.windows, e), ..s }),
            Some(kind) => exists|e: WindowEntry, v: WindowEntry|
                #[trigger] fresh_editor(e, kind, eid, name@, Some(sid)) && #[trigger] fresh_render(v, sid, name@)
                    && t == (HandlerView { windows: put_window(put_window(s.windows, e), v), ..s }),
        },
        Msg::RecreateSvg(id) => t == s && step == StepV::NewRenderWindow(id),
        Msg::AttachRenderWindow(id, sid) => exists|v: WindowEntry|
            #[trigger] fresh_render(v, sid, name_or_empty(s.windows, id)) && ({
                let w1 = put_window(s.windows, v);
                match window_index(w1, id) {
                    Some(k) if w1[k].source.pikchr is Some => {
                        &&& t == (HandlerView {
                            windows: w1.update(k, WindowEntry { target: Some(sid), ..w1[k] }),
                            ..s
                        })
                        &&& step == StepV::Queue(seq![Msg::UpdatePikchr(id, w1[k].source.pikchr->0)])
                    },
                    _ => t == (HandlerView { windows: w1, ..s }) && queues_nothing(step),
                }
            }),
        Msg::ReloadSvgs => t == s && step == StepV::Queue(render_redraws(s.windows)),
        Msg::ResetWorkspaceRequest => t == (HandlerView { modals: s.modals.push(Modal::ConfirmReset), ..s })
            && queues_nothing(step),
        Msg::SaveWorkspace => t == (HandlerView { modals: s.modals.push(Modal::SaveWorkspace), ..s })
            && queues_nothing(step),
        Msg::LoadWorkspaceRequest => t == (HandlerView { modals: s.modals.push(Modal::LoadWorkspace), ..s })
            && queues_nothing(step),
        Msg::LoadWorkspace(ws, g) => t == (HandlerView { windows: ws@, deps: g@, ..s })
            && step == StepV::Queue(seq![Msg::PopModal]),
        Msg::CheckDependencies => t == (HandlerView {
            deps: s.deps.filter(|e: (u64, u64)| still_referenced(window_sources(s.windows), e)),
            ..s
        }) && queues_nothing(step),
        Msg::ShowHelp(topic) => t == (HandlerView { help_topic: Some(topic), ..s }) && queues_nothing(step),
        Msg::HideHelp => t == (HandlerView { help_topic: None, ..s }) && queues_nothing(step),
        Msg::RenameWindow(id, name) => match window_index(s.windows, id) {
            None => t == s && queues_nothing(step),
            Some(k) => {
                let w = s.windows[k];
                &&& t == (HandlerView {
                    windows: s.windows.update(
                        k,
                        WindowEntry { source: RefSource { name: name, ..w.source }, ..w },
                    ),
                    ..s
                })
                &&& step == StepV::Queue(
                    match w.target {
                        Some(tg) => seq![Msg::RenameWindow(tg, name)],
                        None => Seq::empty(),
                    },
                )
            },
        },
        Msg::UpdatePikchr(id, content) => {
            &&& t == (HandlerView { deps: deps_after_expanding(s, id, content@), ..s })
            &&& match window_index(s.windows, id) {
                Some(k) if s.windows[k].target is Some => step == StepV::Render(
                    id,
                    expanded(s, id, content@),
                ),
                _ => queues_nothing(step),
            }
        },
        Msg::UpdateProlog(id, content) => {
            &&& t == (HandlerView { deps: deps_after_expanding(s, id, content@), ..s })
            &&& step == StepV::Evaluate(EditorType::Prolog, id, expanded(s, id, content@))
        },
        Msg::UpdateTcl(id, content) => {
            &&& t == (HandlerView { deps: deps_after_expanding(s, id, content@), ..s })
            &&& step == StepV::Evaluate(EditorType::Tcl, id, expanded(s, id, content@))
        },
        Msg::UpdateMruby(id, content) => {
            &&& t == (HandlerView { deps: deps_after_expanding(s, id, content@), ..s })
            &&& step == StepV::Evaluate(EditorType::Mruby, id, expanded(s, id, content@))
        },
        Msg::UpdatePlainText(id) => t == s && (step matches StepV::Queue(q) && refreshes_dependents(
            q,
            s.deps,
            id,
        )),
        Msg::Evaluated(id, result) => match result {
            Ok(p) => {
                &&& t == s
                &&& step matches StepV::Queue(q)
                &&& q.len() >= 1
                &&& q[0] matches Msg::Batch(b)
                &&& b@ == seq![Msg::ResetError(id), Msg::UpdatePikchrContent(id, p), Msg::UpdatePikchr(id, p)]
                &&& refreshes_dependents(q.drop_first(), s.deps, id)
            },
            Err((shown, logged)) => {
                &&& t == (HandlerView {
                    log: s.log.push(logged),
                    repaint: true,
                    windows: match window_index(s.windows, id) {
                        Some(k) if s.windows[k].has_error => s.windows.update(
                            k,
                            WindowEntry { error: Some(shown), ..s.windows[k] },
                        ),
                        _ => s.windows,
                    },
                    ..s
                })
                &&& step matches StepV::Queue(q)
                &&& refreshes_dependents(q, s.deps, id)
            },
        },
        Msg::Rendered(id, result) => {
            let head: Seq<Msg> = match result {
                Ok(_) => seq![Msg::ResetError(id)] + render_follow_up(s.windows, id),
                Err(_) => Seq::empty(),
            };
            &&& t == match result {
                Ok(_) => HandlerView { repaint: true, ..s },
                Err((shown, logged)) => HandlerView {
                    log: s.log.push(logged),
                    repaint: true,
                    windows: match window_index(s.windows, id) {
                        Some(k) if s.windows[k].has_error => s.windows.update(
                            k,
                            WindowEntry { error: Some(shown), ..s.windows[k] },
                        ),
                        _ => s.windows,
                    },
                    ..s
                },
            }
            &&& step matches StepV::Queue(q)
            &&& q.len() >= head.len()
            &&& q.take(head.len() as int) == head
            &&& match window_index(s.windows, id) {
                Some(k) if s.windows[k].source.pikchr is Some => {
                    let c = s.windows[k].source.pikchr->0;
                    let rest = q.skip(head.len() as int);
                    &&& forall|i: int| 0 <= i < rest.len() ==> ((#[trigger] rest[i]) matches Msg::UpdatePikchr(_, x) && x == c)
                    &&& forall|d: u64| s.deps.contains((id, d)) <==> rest.contains(Msg::UpdatePikchr(d, c))
                    &&& rest.no_duplicates()
                },
                _ => q.len() == head.len(),
            }
        },
        Msg::ResetError(id) => t == (HandlerView {
            windows: match window_index(s.windows, id) {
                Some(k) if s.windows[k].has_error => s.windows.update(
                    k,
                    WindowEntry { error: None, ..s.windows[k] },
                ),
                _ => s.windows,
            },
            ..s
        }) && queues_nothing(step),
        Msg::UpdatePikchrContent(id, c) => t == (HandlerView {
            windows: match window_index(s.windows, id) {
                Some(k) if s.windows[k].source.pikchr is Some => s.windows.update(
                    k,
                    WindowEntry { source: RefSource { pikchr: Some(c), ..s.windows[k].source }, ..s.windows[k] },
                ),
                _ => s.windows,
            },
            ..s
        }) && queues_nothing(step),
        Msg::DeleteWindow(id) => t == (HandlerView {
            windows: without_windows(
                s.windows,
                id,
                match window_index(s.windows, id) {
                    Some(k) => s.windows[k].target,
                    None => None,
                },
            ),
            deps: s.deps.filter(|e: (u64, u64)| e.1 != id),
            ..s
        }) && queues_nothing(step),
        Msg::ToggleWindow(w) => t == (HandlerView { window_states: s.window_states.toggled(w), ..s })
            && queues_nothing(step),
        Msg::ToggleWindowById(id) => t == (HandlerView {
            windows: match window_index(s.windows, id) {
                Some(k) => s.windows.update(k, WindowEntry { visible: !s.windows[k].visible, ..s.windows[k] }),
                None => s.windows,
            },
            ..s
        }) && queues_nothing(step),
        Msg::Refresh(id) => t == s && match window_index(s.windows, id) {
            Some(k) if s.windows[k].kind is Some && s.windows[k].source.raw is Some => step
                == StepV::Queue(
                seq![update_msg(s.windows[k].kind->0, id, s.windows[k].source.raw->0)],
            ),
            _ => queues_nothing(step),
        },
        Msg::ResetWorkspace => t == (HandlerView { windows: Seq::empty(), deps: Set::empty(), ..s })
            && step == StepV::Queue(seq![Msg::PopModal]),
    }
}

/// Removing the windows with an id leaves none with that id.
proof fn lemma_without_windows(ws: Seq<WindowEntry>, a: u64, b: Option<u64>)
    ensures
        window_index(without_windows(ws, a, b), a) is None,
        b matches Some(x) ==> window_index(without_windows(ws, a, b), x) is None,
    decreases ws.len(),
{
    if ws.len() > 0 {
        lemma_without_windows(ws.drop_last(), a, b);
        let prev = without_windows(ws.drop_last(), a, b);
        let r = without_windows(ws, a, b);
        if r != prev {
            assert(r == prev.push(ws.last()));
            assert(r.drop_last() =~= prev);
        }
    }
}

/// No two windows share an id.
pub open spec fn ids_unique(ws: Seq<WindowEntry>) -> bool {
    forall|i: int, j: int| 0 <= i < j < ws.len() ==> (#[trigger] ws[i]).source.id != (#[trigger] ws[j]).source.id
}

/// `window_index` finds the window with the id, and finds none only when
/// no window has it.
proof fn lemma_window_index(ws: Seq<WindowEntry>, id: u64)
    ensures
        window_index(ws, id) matches Some(k) ==> 0 <= k < ws.len() && ws[k].source.id == id,
        window_index(ws, id) is None ==> forall|i: int| 0 <= i < ws.len() ==> (#[trigger] ws[i]).source.id != id,
    decreases ws.len(),
{
    if ws.len() > 0 {
        let p = ws.drop_last();
        lemma_window_index(p, id);
        if ws.last().source.id != id {
            assert forall|i: int| 0 <= i < ws.len() && window_index(ws, id) is None implies (#[trigger] ws[i]).source.id != id by {
                if i < p.len() {
                    assert(ws[i] == p[i]);
                }
            }
        }
    }
}

/// Replacing a window by one with the same id keeps the ids distinct.
proof fn lemma_update_same_id(ws: Seq<WindowEntry>, k: int, w: WindowEntry)
    requires
        ids_unique(ws),
        0 <= k < ws.len(),
        w.source.id == ws[k].source.id,
    ensures
        ids_unique(ws.update(k, w)),
{
    let u = ws.update(k, w);
    assert forall|i: int, j: int| 0 <= i < j < u.len() implies (#[trigger] u[i]).source.id != (#[trigger] u[j]).source.id by {
        assert(u[i].source.id == ws[i].source.id);
        assert(u[j].source.id == ws[j].source.id);
    }
}

/// Putting a window in keeps the ids distinct, and the window is then found.
proof fn lemma_put_window(ws: Seq<WindowEntry>, w: WindowEntry)
    requires
        ids_unique(ws),
    ensures
        ids_unique(put_window(ws, w)),
{
    lemma_window_index(ws, w.source.id);
    match window_index(ws, w.source.id) {
        Some(k) => lemma_update_same_id(ws, k, w),
        None => {
            let u = ws.push(w);
            assert forall|i: int, j: int| 0 <= i < j < u.len() implies (#[trigger] u[i]).source.id != (#[trigger] u[j]).source.id by {
                assert(u[i] == ws[i]);
                if j < ws.len() {
                    assert(u[j] == ws[j]);
                }
            }
        },
    }
}

/// Removing windows keeps the ids of the others distinct; what is left
/// comes from the windows there were.
proof fn lemma_without_unique(ws: Seq<WindowEntry>, a: u64, b: Option<u64>)
    requires
        ids_unique(ws),
    ensures
        ids_unique(without_windows(ws, a, b)),
        forall|i: int| 0 <= i < without_windows(ws, a, b).len() ==> exists|j: int|
            0 <= j < ws.len() && ws[j] == #[trigger] without_windows(ws, a, b)[i],
    decreases ws.len(),
{
    if ws.len() > 0 {
        let p = ws.drop_last();
        assert forall|i: int, j: int| 0 <= i < j < p.len() implies (#[trigger] p[i]).source.id != (#[trigger] p[j]).source.id by {
            assert(p[i] == ws[i] && p[j] == ws[j]);
        }
        lemma_without_unique(p, a, b);
        let prev = without_windows(p, a, b);
        let r = without_windows(ws, a, b);
        if r != prev {
            assert(r == prev.push(ws.last()));
            assert forall|i: int, j: int| 0 <= i < j < r.len() implies (#[trigger] r[i]).source.id != (#[trigger] r[j]).source.id by {
                assert(r[i] == prev[i]);
                let m = choose|m: int| 0 <= m < p.len() && p[m] == #[trigger] prev[i];
                assert(p[m] == ws[m]);
                if j < prev.len() {
                    assert(r[j] == prev[j]);
                } else {
                    assert(ws[m].source.id != ws[ws.len() - 1].source.id);
                }
            }
            assert forall|i: int| 0 <= i < r.len() implies exists|j: int| 0 <= j < ws.len() && ws[j] == #[trigger] r[i] by {
                if i < prev.len() {
                    assert(r[i] == prev[i]);
                    let m = choose|m: int| 0 <= m < p.len() && p[m] == #[trigger] prev[i];
                    assert(ws[m] == r[i]);
                } else {
                    assert(ws[ws.len() - 1] == r[i]);
                }
            }
        } else {
            assert forall|i: int| 0 <= i < r.len() implies exists|j: int| 0 <= j < ws.len() && ws[j] == #[trigger] r[i] by {
                let m = choose|m: int| 0 <= m < p.len() && p[m] == #[trigger] prev[i];
                assert(ws[m] == r[i]);
            }
        }
    }
}

/// No message makes two windows share an id: handling keeps window ids
/// distinct, as long as a loaded workspace brings distinct ids.
pub proof fn law_window_ids_stay_unique(s: HandlerView, msg: Msg, t: HandlerView, step: StepV)
    requires
        handled(s, msg, t, step),
        ids_unique(s.windows),
        msg matches Msg::LoadWorkspace(ws, _) ==> ids_unique(ws@),
    ensures
        ids_unique(t.windows),
{
    match msg {
        Msg::RenameWindow(id, name) => {
            lemma_window_index(s.windows, id);
            if let Some(k) = window_index(s.windows, id) {
                let w = s.windows[k];
                lemma_update_same_id(s.windows, k, WindowEntry { source: RefSource { name: name, ..w.source }, ..w });
            }
        },
        Msg::Evaluated(id, result) => {
            lemma_window_index(s.windows, id);
            if let Err((shown, _)) = result {
                if let Some(k) = window_index(s.windows, id) {
                    lemma_update_same_id(s.windows, k, WindowEntry { error: Some(shown), ..s.windows[k] });
                }
            }
        },
        Msg::Rendered(id, result) => {
            lemma_window_index(s.windows, id);
            if let Err((shown, _)) = result {
                if let Some(k) = window_index(s.windows, id) {
                    lemma_update_same_id(s.windows, k, WindowEntry { error: Some(shown), ..s.windows[k] });
                }
            }
        },
        Msg::ResetError(id) => {
            lemma_window_index(s.windows, id);
            if let Some(k) = window_index(s.windows, id) {
                lemma_update_same_id(s.windows, k, WindowEntry { error: None, ..s.windows[k] });
            }
        },
        Msg::UpdatePikchrContent(id, c) => {
            lemma_window_index(s.windows, id);
            if let Some(k) = window_index(s.windows, id) {
                lemma_update_same_id(
                    s.windows,
                    k,
                    WindowEntry { source: RefSource { pikchr: Some(c), ..s.windows[k].source }, ..s.windows[k] },
                );
            }
        },
        Msg::DeleteWindow(id) => {
            let target = match window_index(s.windows, id) {
                Some(k) => s.windows[k].target,
                None => None,
            };
            lemma_without_unique(s.windows, id, target);
        },
        Msg::ToggleWindowById(id) => {
            lemma_window_index(s.windows, id);
            if let Some(k) = window_index(s.windows, id) {
                lemma_update_same_id(s.windows, k, WindowEntry { visible: !s.windows[k].visible, ..s.windows[k] });
            }
        },
        Msg::NewWindow(wt, eid, name, sid) => {
            match editor_kind(wt) {
                None => {},
                Some(EditorType::PlainText) => {
                    let e = choose|e: WindowEntry|
                        #[trigger] fresh_editor(e, EditorType::PlainText, eid, name@, None)
                            && t == (HandlerView { windows: put_window(s.windows, e), ..s });
                    lemma_put_window(s.windows, e);
                },
                Some(kind) => {
                    let (e, v) = choose|e: WindowEntry, v: WindowEntry|
                        #[trigger] fresh_editor(e, kind, eid, name@, Some(sid)) && #[trigger] fresh_render(v, sid, name@)
                            && t == (HandlerView { windows: put_window(put_window(s.windows, e), v), ..s });
                    lemma_put_window(s.windows, e);
                    lemma_put_window(put_window(s.windows, e), v);
                },
            }
        },
        Msg::AttachRenderWindow(id, sid) => {
            let v = choose|v: WindowEntry|
                #[trigger] fresh_render(v, sid, name_or_empty(s.windows, id)) && ({
                    let w1 = put_window(s.windows, v);
                    match window_index(w1, id) {
                        Some(k) if w1[k].source.pikchr is Some => {
                            &&& t == (HandlerView {
                                windows: w1.update(k, WindowEntry { target: Some(sid), ..w1[k] }),
                                ..s
                            })
                            &&& step == StepV::Queue(seq![Msg::UpdatePikchr(id, w1[k].source.pikchr->0)])
                        },
                        _ => t == (HandlerView { windows: w1, ..s }) && queues_nothing(step),
                    }
                });
            lemma_put_window(s.windows, v);
            let w1 = put_window(s.windows, v);
            lemma_window_index(w1, id);
            if let Some(k) = window_index(w1, id) {
                lemma_update_same_id(w1, k, WindowEntry { target: Some(sid), ..w1[k] });
            }
        },
        _ => {},
    }
}

/// Refreshing an editor re-runs its raw source in the editor's own
/// language: a Ruby editor gets `UpdateMruby`, a Tcl editor `UpdateTcl`, a
/// Prolog editor `UpdateProlog`, a Pikchr editor `UpdatePikchr`, and a
/// plain-text editor `UpdatePlainText`. Nothing else changes.
pub proof fn law_refresh_keeps_language(s: HandlerView, id: u64, t: HandlerView, step: StepV, k: int)
    requires
        handled(s, Msg::Refresh(id), t, step),
        window_index(s.windows, id) == Some(k),
        s.windows[k].kind is Some,
        s.windows[k].source.raw is Some,
    ensures
        t == s,
        ({
            let raw = s.windows[k].source.raw->0;
            match s.windows[k].kind->0 {
                EditorType::Mruby => step == StepV::Queue(seq![Msg::UpdateMruby(id, raw)]),
                EditorType::Tcl => step == StepV::Queue(seq![Msg::UpdateTcl(id, raw)]),
                EditorType::Prolog => step == StepV::Queue(seq![Msg::UpdateProlog(id, raw)]),
                EditorType::Pikchr => step == StepV::Queue(seq![Msg::UpdatePikchr(id, raw)]),
                EditorType::PlainText => step == StepV::Queue(seq![Msg::UpdatePlainText(id)]),
            }
        }),
{
}

/// What a refresh queues for a script editor (Ruby, Tcl, Prolog) is then
/// evaluated by that editor's language and for that editor, never by
/// another language's evaluator.
pub proof fn law_refresh_evaluates_in_its_language(
    s: HandlerView,
    id: u64,
    t: HandlerView,
    step: StepV,
    k: int,
    t2: HandlerView,
    step2: StepV,
)
    requires
        handled(s, Msg::Refresh(id), t, step),
        window_index(s.windows, id) == Some(k),
        s.windows[k].kind matches Some(kind) && (kind == EditorType::Mruby || kind == EditorType::Tcl
            || kind == EditorType::Prolog),
        s.windows[k].source.raw is Some,
        step matches StepV::Queue(q) && q.len() > 0 && handled(t, q[0], t2, step2),
    ensures
        step2 matches StepV::Evaluate(lang, w, _) && lang == s.windows[k].kind->0 && w == id,
{
    law_refresh_keeps_language(s, id, t, step, k);
}

/// Deleting a window removes it and its render window, and every
/// dependency of it on other windows; nothing follows.
pub proof fn law_delete_window_forgets_it(s: HandlerView, id: u64, t: HandlerView, step: StepV)
    requires
        handled(s, Msg::DeleteWindow(id), t, step),
    ensures
        window_index(t.windows, id) is None,
        forall|tg: u64|
            (window_index(s.windows, id) matches Some(k) && s.windows[k].target == Some(tg))
                ==> #[trigger] window_index(t.windows, tg) is None,
        forall|e: (u64, u64)| t.deps.contains(e) ==> e.1 != id && s.deps.contains(e),
        step == StepV::Queue(Seq::empty()),
{
    let target = match window_index(s.windows, id) {
        Some(k) => s.windows[k].target,
        None => None,
    };
    lemma_without_windows(s.windows, id, target);
}

impl HandlerState {
    /// Shows `shown` as the error of window `id`, if it exists and can.
    fn show_error(&mut self, id: u64, shown: String)
        ensures
            final(self)@ == (HandlerView {
                windows: match window_index(old(self)@.windows, id) {
                    Some(k) if old(self)@.windows[k].has_error => old(self)@.windows.update(
                        k,
                        WindowEntry { error: Some(shown), ..old(self)@.windows[k] },
                    ),
                    _ => old(self)@.windows,
                },
                ..old(self)@
            }),
    {
        match find_window(&self.windows, id) {
            Some(k) => {
                if self.windows[k].has_error {
                    self.windows[k].error = Some(shown);
                }
            },
            None => {},
        }
    }

    /// Handles one message: changes the state as `handled` says and
    /// returns what follows.
    #[verifier::rlimit(60)]
    #[verifier::spinoff_prover]
    pub fn handle_event(&mut self, msg: Msg) -> (r: Step)
        requires
            !(msg is Debounce),
        ensures
            handled(old(self)@, msg, final(self)@, r@),
    {
        let ghost s = self@;
        match msg {
            Msg::Debounce(_, _, _) => Step::Queue(Vec::new()),
            Msg::Batch(v) => Step::Queue(v),
            Msg::PopModal => {
                if self.modals.len() > 0 {
                    let _ = self.modals.remove(0);
                }
                Step::Queue(Vec::new())
            },
            Msg::ExportModal(id, name, kind) => {
                self.modals.push(Modal::Export(id, name, kind));
                Step::Queue(Vec::new())
            },
            Msg::Export(id, file, kind) => Step::Export(id, file, kind),
            Msg::Exported => {
                let mut q: Vec<Msg> = Vec::new();
                q.push(Msg::PopModal);
                Step::Queue(q)
            },
            Msg::ExportPikchrToClipboard(id) => match find_window(&self.windows, id) {
                Some(k) => match &self.windows[k].source.pikchr {
                    Some(c) => {
                        let c = c.clone();
                        let src = sources_of(&self.windows);
                        let text = replace_pikchr_content(&src, &mut self.deps, id, c.as_str());
                        Step::Clipboard(text)
                    },
                    None => Step::Queue(Vec::new()),
                },
                None => Step::Queue(Vec::new()),
            },
            Msg::FontSizeModal(_) => {
                let label = "VALUE".to_string();
                let value = "abc".to_string();
                let ghost before = self.modals@;
                self.modals.push(Modal::StringEdit(label, value));
                assert(self.modals@.drop_last() =~= before);
                Step::Queue(Vec::new())
            },
            Msg::RequestRename(id) => match find_window(&self.windows, id) {
                Some(k) => {
                    let name = self.windows[k].source.name.clone();
                    self.modals.push(Modal::Rename(id, name));
                    self.repaint = true;
                    Step::Queue(Vec::new())
                },
                None => Step::Queue(Vec::new()),
            },
            Msg::RequestRedraw(id) => Step::Redraw(id),
            Msg::Redrawn(id) => {
                if self.deps.contains(id, id) {
                    Step::Queue(Vec::new())
                } else {
                    self.repaint = true;
                    Step::Queue(redraw_dependents(&self.deps, id))
                }
            },
            Msg::UpdateContent(_, _) => Step::Queue(Vec::new()),
            Msg::NewWindow(wt, eid, name, sid) => {
                match wt {
                    WindowType::SvgWindow => {},
                    WindowType::PlainTextEditor => {
                        let e = new_editor(EditorType::PlainText, eid, name, None);
                        put_window_in(&mut self.windows, e);
                    },
                    _ => {
                        let kind = match wt {
                            WindowType::PikchrEditor => EditorType::Pikchr,
                            WindowType::PrologEditor => EditorType::Prolog,
                            WindowType::TclEditor => EditorType::Tcl,
                            _ => EditorType::Mruby,
                        };
                        let e = new_editor(kind, eid, name.clone(), Some(sid));
                        let v = new_render(sid, name);
                        let ghost e0 = e;
                        let ghost v0 = v;
                        put_window_in(&mut self.windows, e);
                        put_window_in(&mut self.windows, v);
                        assert(fresh_editor(e0, kind, eid, name@, Some(sid)) && fresh_render(v0, sid, name@));
                    },
                }
                Step::Queue(Vec::new())
            },
            Msg::RecreateSvg(id) => Step::NewRenderWindow(id),
            Msg::AttachRenderWindow(id, sid) => {
                let name = match find_window(&self.windows, id) {
                    Some(k) => self.windows[k].source.name.clone(),
                    None => String::new(),
                };
                let v = new_render(sid, name);
                let ghost v0 = v;
                put_window_in(&mut self.windows, v);
                let ghost w1 = self.windows@;
                assert(fresh_render(v0, sid, name_or_empty(s.windows, id)));
                match find_window(&self.windows, id) {
                    Some(k) => match &self.windows[k].source.pikchr {
                        Some(c) => {
                            let c = c.clone();
                            self.windows[k].target = Some(sid);
                            let mut q: Vec<Msg> = Vec::new();
                            q.push(Msg::UpdatePikchr(id, c));
                            assert(self.windows@ == w1.update(k as int, WindowEntry { target: Some(sid), ..w1[k as int] }));
                            Step::Queue(q)
                        },
                        None => Step::Queue(Vec::new()),
                    },
                    None => Step::Queue(Vec::new()),
                }
            },
            Msg::ReloadSvgs => Step::Queue(redraw_renders(&self.windows)),
            Msg::ResetWorkspaceRequest => {
                self.modals.push(Modal::ConfirmReset);
                Step::Queue(Vec::new())
            },
            Msg::SaveWorkspace => {
                self.modals.push(Modal::SaveWorkspace);
                Step::Queue(Vec::new())
            },
            Msg::LoadWorkspaceRequest => {
                self.modals.push(Modal::LoadWorkspace);
                Step::Queue(Vec::new())
            },
            Msg::LoadWorkspace(ws, g) => {
                self.windows = ws;
                self.deps = g;
                let mut q: Vec<Msg> = Vec::new();
                q.push(Msg::PopModal);
                Step::Queue(q)
            },
            Msg::CheckDependencies => {
                let src = sources_of(&self.windows);
                clean_old_deps(&src, &mut self.deps);
                Step::Queue(Vec::new())
            },
            Msg::ShowHelp(topic) => {
                self.help_topic = Some(topic);
                Step::Queue(Vec::new())
            },
            Msg::HideHelp => {
                self.help_topic = None;
                Step::Queue(Vec::new())
            },
            Msg::RenameWindow(id, name) => match find_window(&self.windows, id) {
                None => Step::Queue(Vec::new()),
                Some(k) => {
                    let mut q: Vec<Msg> = Vec::new();
                    match self.windows[k].target {
                        Some(tg) => {
                            q.push(Msg::RenameWindow(tg, name.clone()));
                        },
                        None => {},
                    }
                    self.windows[k].source.name = name;
                    Step::Queue(q)
                },
            },
            Msg::UpdatePikchr(id, content) => {
                let src = sources_of(&self.windows);
                let expanded = replace_content(&src, &mut self.deps, id, content.as_str());
                match find_window(&self.windows, id) {
                    Some(k) => {
                        if self.windows[k].target.is_some() {
                            Step::Render(id, expanded)
                        } else {
                            Step::Queue(Vec::new())
                        }
                    },
                    None => Step::Queue(Vec::new()),
                }
            },
            Msg::UpdateProlog(id, content) => {
                let src = sources_of(&self.windows);
                let expanded = replace_content(&src, &mut self.deps, id, content.as_str());
                Step::Evaluate(EditorType::Prolog, id, expanded)
            },
            Msg::UpdateTcl(id, content) => {
                let src = sources_of(&self.windows);
                let expanded = replace_content(&src, &mut self.deps, id, content.as_str());
                Step::Evaluate(EditorType::Tcl, id, expanded)
            },
            Msg::UpdateMruby(id, content) => {
                let src = sources_of(&self.windows);
                let expanded = replace_content(&src, &mut self.deps, id, content.as_str());
                Step::Evaluate(EditorType::Mruby, id, expanded)
            },
            Msg::UpdatePlainText(id) => {
                let mut q: Vec<Msg> = Vec::new();
                append_refreshes(&mut q, &self.deps, id);
                assert(q@.skip(0) =~= q@);
                Step::Queue(q)
            },
            Msg::Evaluated(id, result) => match result {
                Ok(p) => {
                    let ghost pv = p;
                    let mut batch: Vec<Msg> = Vec::new();
                    batch.push(Msg::ResetError(id));
                    batch.push(Msg::UpdatePikchrContent(id, p.clone()));
                    batch.push(Msg::UpdatePikchr(id, p));
                    assert(batch@ =~= seq![Msg::ResetError(id), Msg::UpdatePikchrContent(id, pv), Msg::UpdatePikchr(id, pv)]);
                    let ghost bv = batch@;
                    let mut q: Vec<Msg> = Vec::new();
                    q.push(Msg::Batch(batch));
                    let ghost q0 = q@;
                    append_refreshes(&mut q, &self.deps, id);
                    assert(q@.take(1)[0] == q@[0]);
                    assert(q0[0] matches Msg::Batch(b) && b@ == bv);
                    assert(q@.drop_first() =~= q@.skip(1));
                    Step::Queue(q)
                },
                Err((shown, logged)) => {
                    self.log.push(logged);
                    self.repaint = true;
                    self.show_error(id, shown);
                    let mut q: Vec<Msg> = Vec::new();
                    append_refreshes(&mut q, &self.deps, id);
                    assert(q@.skip(0) =~= q@);
                    Step::Queue(q)
                },
            },
            Msg::Rendered(id, result) => {
                let found = find_window(&self.windows, id);
                self.repaint = true;
                let mut q: Vec<Msg> = Vec::new();
                match result {
                    Ok(()) => {
                        q.push(Msg::ResetError(id));
                        match found {
                            Some(k) => match self.windows[k].target {
                                Some(tg) => {
                                    let is_render = match find_window(&self.windows, tg) {
                                        Some(j) => self.windows[j].kind.is_none(),
                                        None => false,
                                    };
                                    if is_render {
                                        q.push(Msg::RequestRedraw(tg));
                                    } else {
                                        q.push(Msg::RecreateSvg(id));
                                    }
                                },
                                None => {},
                            },
                            None => {},
                        }
                        assert(q@ =~= seq![Msg::ResetError(id)] + render_follow_up(s.windows, id));
                    },
                    Err((shown, logged)) => {
                        self.log.push(logged);
                        match found {
                            Some(k) => {
                                if self.windows[k].has_error {
                                    self.windows[k].error = Some(shown);
                                }
                            },
                            None => {},
                        }
                    },
                }
                let ghost head = q@;
                match found {
                    Some(k) => {
                        assert(self.windows@[k as int].source == s.windows[k as int].source);
                        match &self.windows[k].source.pikchr {
                            Some(c) => {
                                let c2 = c.clone();
                                append_pikchr_updates(&mut q, &self.deps, id, &c2);
                            },
                            None => {},
                        }
                    },
                    None => {},
                }
                assert(q@.take(head.len() as int) =~= head);
                Step::Queue(q)
            },
            Msg::ResetError(id) => {
                match find_window(&self.windows, id) {
                    Some(k) => {
                        if self.windows[k].has_error {
                            self.windows[k].error = None;
                        }
                    },
                    None => {},
                }
                Step::Queue(Vec::new())
            },
            Msg::UpdatePikchrContent(id, c) => {
                match find_window(&self.windows, id) {
                    Some(k) => {
                        if self.windows[k].source.pikchr.is_some() {
                            self.windows[k].source.pikchr = Some(c);
                        }
                    },
                    None => {},
                }
                Step::Queue(Vec::new())
            },
            Msg::DeleteWindow(id) => {
                let target = match find_window(&self.windows, id) {
                    Some(k) => self.windows[k].target,
                    None => None,
                };
                self.windows = remove_windows(&self.windows, id, target);
                self.deps.forget_dependent(id);
                Step::Queue(Vec::new())
            },
            Msg::ToggleWindow(w) => {
                self.window_states.toggle(w);
                Step::Queue(Vec::new())
            },
            Msg::ToggleWindowById(id) => {
                match find_window(&self.windows, id) {
                    Some(k) => {
                        let v = self.windows[k].visible;
                        self.windows[k].visible = !v;
                    },
                    None => {},
                }
                Step::Queue(Vec::new())
            },
            Msg::Refresh(id) => match find_window(&self.windows, id) {
                Some(k) => match (self.windows[k].kind, &self.windows[k].source.raw) {
                    (Some(kind), Some(raw)) => {
                        let mut q: Vec<Msg> = Vec::new();
                        q.push(make_update(kind, id, raw.clone()));
                        Step::Queue(q)
                    },
                    _ => Step::Queue(Vec::new()),
                },
                None => Step::Queue(Vec::new()),
            },
            Msg::ResetWorkspace => {
                self.windows = Vec::new();
                self.deps = DepGraph::new();
                let mut q: Vec<Msg> = Vec::new();
                q.push(Msg::PopModal);
                Step::Queue(q)
            },
        }
    }
}

} // verus!
