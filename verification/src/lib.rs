//! The document engine of a plain-text editor: a rope-backed buffer with a
//! cursor and a selection, a linear undo/redo history, an input-method overlay,
//! substring search, and a codec over a small set of text encodings.
//!
//! Every function of this crate carries a contract that Verus proves, except
//! the few wrappers around other crates, which say so in their documentation.

pub mod clipboard;
pub mod codec;
pub mod document;
pub mod error;
pub mod format;
pub mod history;
pub mod keys;
pub mod laws;
pub mod lines;
pub mod model;
pub mod rope;
pub mod search;
pub mod session;
pub mod utf16;
pub mod utf8;
