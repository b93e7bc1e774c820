//! What the editor asks of a user interface.
//!
//! An interface shows text and fetches commands and input. The library only
//! states what it expects; the implementations live with the programs that
//! use it.

use crate::buffer::Buffer;
use crate::error::EditError;
use crate::text::ends_with_newline;
use vstd::prelude::*;

verus! {

/// The line that ends an input: `terminator` alone on a line.
pub open spec fn terminator_line(terminator: char) -> Seq<char> {
    seq![terminator, '\n']
}

/// A user interface.
pub trait UI {
    /// Shows `data`, the output of a command.
    fn print(&mut self, data: &str) -> (r: Result<(), EditError>);

    /// Fetches one line to be parsed as a command, with or without the
    /// newline that ends it. The buffer is there for interfaces that show
    /// it while the user types.
    fn get_command<B: Buffer>(&mut self, buffer: &B) -> (r: Result<String, EditError>)
        ensures
            match r {
                Ok(line) => forall|i: int| 0 <= i < line@.len() - 1 ==> line@[i] != '\n',
                Err(_) => true,
            },
    ;

    /// Fetches the lines that the user enters up to, and without, the first
    /// line that holds `terminator` alone. Every line returned ends in a
    /// newline.
    fn get_input<B: Buffer>(&mut self, buffer: &B, terminator: char) -> (r: Result<
        Vec<String>,
        EditError,
    >)
        ensures
            match r {
                Ok(lines) => forall|i: int|
                    0 <= i < lines@.len() ==> ends_with_newline(#[trigger] lines@[i]@)
                        && lines@[i]@ != terminator_line(terminator),
                Err(_) => true,
            },
    ;

    /// Shows the lines of `selection`, with their numbers if `numbered`,
    /// and with invisible characters spelled out if `literal`.
    fn print_selection<B: Buffer>(
        &mut self,
        buffer: &B,
        selection: (usize, usize),
        numbered: bool,
        literal: bool,
    ) -> (r: Result<(), EditError>);
}

} // verus!
