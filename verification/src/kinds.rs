//! The small vocabularies of the workspace: export formats, editor kinds,
//! the built-in utility windows, and which of those are shown.
use vstd::prelude::*;

verus! {

/// A format a render window can export to.
#[derive(Debug, Clone, Copy, PartialEq, Eq, Structural)]
pub enum ExportType {
    Svg,
    Png,
    PngTransparent,
}

/// The language of an editor window.
#[derive(Debug, Clone, Copy, PartialEq, Eq, Structural)]
pub enum EditorType {
    Prolog,
    Pikchr,
    Tcl,
    Mruby,
    PlainText,
}

/// A built-in utility window.
#[derive(Debug, Clone, Copy, PartialEq, Eq, Structural)]
pub enum Window {
    Logger,
    Debugger,
}

/// Which built-in utility windows are shown.
#[derive(Debug, Clone, Copy, PartialEq, Eq, Structural)]
pub struct WindowState {
    pub debug: bool,
    pub log: bool,
    pub profiler: bool,
}

impl WindowState {
    /// The state of a fresh workspace: only the logger is shown.
    pub fn new() -> (s: WindowState)
        ensures
            s == (WindowState { debug: false, log: true, profiler: false }),
    {
        WindowState { debug: false, log: true, profiler: false }
    }

    /// Whether the utility window `w` is shown.
    pub open spec fn shows(self, w: Window) -> bool {
        match w {
            Window::Logger => self.log,
            Window::Debugger => self.debug,
        }
    }

    /// The state with the utility window `w` shown if it was hidden and
    /// hidden otherwise.
    pub open spec fn toggled(self, w: Window) -> WindowState {
        match w {
            Window::Logger => WindowState { log: !self.log, ..self },
            Window::Debugger => WindowState { debug: !self.debug, ..self },
        }
    }

    /// Shows the utility window `w` if it is hidden, hides it otherwise;
    /// the other windows stay as they are.
    pub fn toggle(&mut self, w: Window)
        ensures
            *final(self) == old(self).toggled(w),
            final(self).shows(w) == !old(self).shows(w),
            forall|o: Window| o != w ==> final(self).shows(o) == old(self).shows(o),
            final(self).profiler == old(self).profiler,
    {
        match w {
            Window::Logger => {
                let current = self.log;
                self.log = !current;
            },
            Window::Debugger => {
                let current = self.debug;
                self.debug = !current;
            },
        }
    }
}

} // verus!
