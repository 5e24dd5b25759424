//! Core of a modal text editor: a char-indexed text store with line
//! arithmetic, vi-style word segmentation, cursor motions, and the modal
//! key-dispatch state machine.

pub mod buffer;
pub mod handler;
pub mod rope_text;
pub mod session;
pub mod text;
pub mod words;
