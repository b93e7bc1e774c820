//! Commands and the parsing of their arguments.

pub mod command;
pub mod parse_expressions;
