//! What every workspace window offers, trait by trait: visibility, its
//! position in the window list, an id, a one-time initialisation, an error
//! to show, and the text it holds.
use vstd::prelude::*;

verus! {

/// A window that can be shown or hidden.
pub trait Visible {
    /// Whether the window is shown.
    spec fn is_visible(&self) -> bool;

    fn visible(&self) -> (b: bool)
        ensures
            b == self.is_visible(),
    ;

    fn set_visible(&mut self, new: bool)
        ensures
            final(self).is_visible() == new,
    ;

    /// Shows the window if it is hidden, hides it otherwise.
    fn toggle_visible(&mut self)
        ensures
            final(self).is_visible() == !old(self).is_visible(),
    {
        let v = self.visible();
        self.set_visible(!v);
    }
}

/// A window with an id (the value of its `egui::Id`).
pub trait Id {
    /// The window's id.
    spec fn id_of(&self) -> u64;

    fn get_id(&self) -> (r: u64)
        ensures
            r == self.id_of(),
    ;
}

/// A window with a position in the window list.
pub trait Indexable {
    /// The window's position.
    spec fn index_of(&self) -> usize;

    fn set_index(&mut self, value: usize)
        ensures
            final(self).index_of() == value,
    ;

    fn get_index(&self) -> (r: usize)
        ensures
            r == self.index_of(),
    ;
}

/// A window that is set up once, the first time it is shown.
pub trait Initialize: Id {
    /// Whether the set-up has happened.
    spec fn initialized(&self) -> bool;

    fn is_initialized(&self) -> (r: bool)
        ensures
            r == self.initialized(),
    ;

    fn set_initialized(&mut self)
        ensures
            final(self).initialized(),
    ;
}

/// A window that can show an error next to its content.
pub trait Error {
    /// The error shown, if any.
    spec fn error_of(&self) -> Option<Seq<char>>;

    fn set_error(&mut self, error: Option<String>)
        ensures
            final(self).error_of() == crate::help::opt_view(error),
    ;

    fn get_error(&self) -> (r: Option<String>)
        ensures
            crate::help::opt_view(r) == self.error_of(),
    ;
}

/// A window with a name that references use.
pub trait HasName {
    /// The window's name.
    spec fn name_of(&self) -> Seq<char>;

    fn get_name(&self) -> (r: String)
        ensures
            r@ == self.name_of(),
    ;

    fn set_name(&mut self, value: String)
        ensures
            final(self).name_of() == value@,
    ;
}

/// An editor, of some language.
pub trait EditorType {
    /// The editor's language.
    spec fn kind(&self) -> crate::kinds::EditorType;

    fn get_editor_type(&self) -> (r: crate::kinds::EditorType)
        ensures
            r == self.kind(),
    ;
}

/// A window holding generated Pikchr.
pub trait PikchrContent: Indexable {
    /// The Pikchr held.
    spec fn pikchr_of(&self) -> Seq<char>;

    fn get_pikchr_content(&self) -> (r: String)
        ensures
            r@ == self.pikchr_of(),
    ;

    fn set_pikchr_content(&mut self, value: String)
        ensures
            final(self).pikchr_of() == value@,
    ;
}

/// A window holding source text as typed.
pub trait RawContent: Indexable {
    /// The source held.
    spec fn raw_of(&self) -> Seq<char>;

    fn get_raw_content(&self) -> (r: String)
        ensures
            r@ == self.raw_of(),
    ;

    fn set_raw_content(&mut self, value: String)
        ensures
            final(self).raw_of() == value@,
    ;
}

/// A window holding text.
pub trait Content: Indexable {
    /// The text held.
    spec fn content_of(&self) -> Seq<char>;

    fn get_content(&self) -> (r: String)
        ensures
            r@ == self.content_of(),
    ;

    fn set_content(&mut self, value: String)
        ensures
            final(self).content_of() == value@,
    ;
}

/// The kinds of window that can be created.
#[derive(Debug, Clone, Copy, PartialEq, Eq, Structural)]
pub enum WindowType {
    PikchrEditor,
    PrologEditor,
    TclEditor,
    MrubyEditor,
    PlainTextEditor,
    SvgWindow,
}

} // verus!
