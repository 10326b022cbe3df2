//! The plain text editor: reusable raw text that other editors include with
//! `!!NAME!!`. It generates no Pikchr and has no render window.
use vstd::prelude::*;
use crate::kinds;
use crate::mini_window::{EditorType, Error, HasName, Id, Indexable, RawContent, Visible};

verus! {

/// A plain text editor window.
#[derive(Debug, Clone)]
pub struct PlainTextEditor {
    pub id: u64,
    pub visible: bool,
    content: String,
    index: usize,
    name: String,
    error: Option<String>,
}

impl PlainTextEditor {
    /// A new, shown, empty editor with id `id`, called `name`.
    pub fn new(id: u64, name: String) -> (e: PlainTextEditor)
        ensures
            e.id_of() == id,
            e.is_visible(),
            e.raw_of() == Seq::<char>::empty(),
            e.index_of() == 1,
            e.name_of() == name@,
            e.error_of() is None,
    {
        PlainTextEditor { id, visible: true, content: String::new(), index: 1, name, error: None }
    }

    /// The window title: `Plain text - ` and the editor's name.
    pub fn get_title(&self) -> (r: String)
        ensures
            r@ == "Plain text - "@ + self.name_of(),
    {
        proof {
            reveal_strlit("Plain text - ");
        }
        let mut t = "Plain text - ".to_owned();
        t.append(self.name.as_str());
        t
    }
}

impl Visible for PlainTextEditor {
    closed spec fn is_visible(&self) -> bool {
        self.visible
    }

    fn visible(&self) -> (b: bool) {
        self.visible
    }

    fn set_visible(&mut self, new: bool) {
        self.visible = new;
    }
}

impl Id for PlainTextEditor {
    closed spec fn id_of(&self) -> u64 {
        self.id
    }

    fn get_id(&self) -> (r: u64) {
        self.id
    }
}

impl Indexable for PlainTextEditor {
    closed spec fn index_of(&self) -> usize {
        self.index
    }

    fn set_index(&mut self, value: usize) {
        self.index = value;
    }

    fn get_index(&self) -> (r: usize) {
        self.index
    }
}

impl RawContent for PlainTextEditor {
    closed spec fn raw_of(&self) -> Seq<char> {
        self.content@
    }

    fn get_raw_content(&self) -> (r: String) {
        self.content.clone()
    }

    fn set_raw_content(&mut self, value: String) {
        self.content = value;
    }
}

impl Error for PlainTextEditor {
    closed spec fn error_of(&self) -> Option<Seq<char>> {
        crate::help::opt_view(self.error)
    }

    fn set_error(&mut self, error: Option<String>) {
        self.error = error;
    }

    fn get_error(&self) -> (r: Option<String>) {
        match &self.error {
            Some(e) => Some(e.clone()),
            None => None,
        }
    }
}

impl HasName for PlainTextEditor {
    closed spec fn name_of(&self) -> Seq<char> {
        self.name@
    }

    fn get_name(&self) -> (r: String) {
        self.name.clone()
    }

    fn set_name(&mut self, value: String) {
        self.name = value;
    }
}

impl EditorType for PlainTextEditor {
    open spec fn kind(&self) -> kinds::EditorType {
        kinds::EditorType::PlainText
    }

    fn get_editor_type(&self) -> (r: kinds::EditorType) {
        kinds::EditorType::PlainText
    }
}

impl crate::editor::Editor for PlainTextEditor {
}

} // verus!
