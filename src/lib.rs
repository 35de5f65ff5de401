//! Text buffer and cursor core of a terminal line editor.
//!
//! A [`Row`] holds one line and is indexed by grapheme cluster; a [`Document`]
//! is the ordered list of rows; [`cursor`] moves a position through a document
//! and keeps it inside a viewport; an [`Editor`] ties a document, its cursor and
//! the viewport offset together for each edit.
pub mod clusters;
pub mod cursor;
pub mod document;
pub mod editor;
pub mod row;
pub mod terminal;
pub mod text;

pub use cursor::{Movement, Position};
pub use document::Document;
pub use editor::{EditState, Editor};
pub use row::Row;
pub use terminal::{Size, Terminal};
