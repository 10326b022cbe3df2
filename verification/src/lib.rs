//! Text-processing core of the DiagramIDE diagram editor.
pub mod text;
pub mod entities;
pub mod html;
pub mod help;
pub mod grammar;
pub mod markdown;
pub mod grammar_md;
pub mod editor;
pub mod references;
pub mod kinds;
pub mod mini_window;
pub mod plain_text_editor;
pub mod mruby;
pub mod tcl;
pub mod laws;
pub mod workspace;
pub mod guide;
pub mod handler;
pub mod export;
pub mod message_loop;
pub mod grammar_view;
