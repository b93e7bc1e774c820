//! A line-oriented text buffer for ed-style editors.
//!
//! The buffer owns the lines being edited, a clipboard and a saved flag, and
//! offers the range operations a command interpreter needs. Every operation
//! is specified over a mathematical model of the buffer and verified against
//! it.

pub mod buffer;
pub mod cmd;
pub mod error;
pub mod laws;
pub mod model;
pub mod pattern;
pub mod text;
pub mod ui;
