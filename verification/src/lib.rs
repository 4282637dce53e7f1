//! Vellum: the text buffer, history and viewport logic of a small terminal
//! editor for Markdown notes.
//!
//! The document keeps its text in a rope and its history in snapshots of
//! that rope. Rows, columns and offsets are counted in characters. A position
//! that the document does not have is never an error: it gives way to the
//! nearest position that the document has.

pub mod chars;
pub mod commands;
pub mod document;
pub mod editor;
pub mod free_cursor;
pub mod highlighting;
pub mod parse;
pub mod position;
pub mod replace;
pub mod rope;
pub mod row;
pub mod rows;
pub mod search;
pub mod text;
pub mod textfmt;
pub mod ui;
pub mod viewport;
