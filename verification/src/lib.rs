//! A full-screen terminal form engine: positioned labels and fixed-width
//! editable fields, position-ordered ring navigation between fields, in-place
//! text editing on Unicode scalar values, and a modal choice picker.
//!
//! Everything here is a pure state transition: the caller reads keys and
//! paints frames, the engine decides what changes and what is drawn.

pub mod cursor;
pub mod dialog_appender;
pub mod event;
pub mod form;
pub mod form_laws;
pub mod input;
pub mod label;
pub mod loader;
pub mod nav;
pub mod number;
pub mod output;
pub mod parser;
pub mod pos;
pub mod render;
pub mod ring_laws;
pub mod scan;
pub mod select_form;
pub mod session;
pub mod text;
pub mod vec_appender;

pub use event::EventResult;
pub use form::Form;
pub use input::Input;
pub use label::Label;
pub use pos::Pos;
