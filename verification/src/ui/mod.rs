//! The parts of the interface that are text and rules rather than drawing:
//! the script editor.

pub mod code_editor;
pub mod duel_log;
pub mod highlight;
pub mod wrap;
