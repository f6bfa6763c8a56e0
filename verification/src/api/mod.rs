//! The extension API: operators, their undo buffer, and the extension lifecycle.

pub mod operator;
pub mod lifecycle;
