//! The closed set of failures that the buffer and its helpers report.

use vstd::prelude::*;

verus! {

/// Why an operation was rejected.
#[derive(Clone, Copy, Debug, PartialEq, Eq, Hash, Structural)]
pub enum EditError {
    /// An index or the end of a selection lies beyond the last valid position.
    IndexTooBig,
    /// A selection whose start is not before its end.
    SelectionEmpty,
    /// No line carries the tag, or no line matches the pattern.
    NoMatch,
    /// The pattern is not a valid regular expression.
    InvalidRegex,
    /// A move whose target lies strictly inside the moved selection.
    MoveIntoSelf,
    /// The input ends in an escaped separator.
    EscapedLastExpression,
    /// The file could not be accessed for lack of permission.
    PermissionDenied,
    /// The file does not exist.
    NotFound,
    /// Any other failure of reading or writing.
    Unknown,
}

} // verus!
