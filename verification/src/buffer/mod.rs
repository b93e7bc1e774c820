//! The operations that every buffer offers, whatever it stores its lines in,
//! and the two checks that precede them.
//!
//! Each operation checks its arguments before it changes anything: when it
//! reports a failure, the buffer is as it was (with one exception, stated at
//! `search_replace`).

pub mod file;
pub mod vecbuffer;

pub use crate::buffer::vecbuffer::VecBuffer;

use crate::buffer::file::{read_fault, read_texts, IoFailure};
use crate::error::EditError;
use crate::model::{
    index_fault, mov_copy_fault, mov_fault, outcome, pattern_fault, selection_fault, BufferState,
};
use crate::text::views;
use vstd::prelude::*;

verus! {

/// The selection `s` as a pair of mathematical integers.
pub open spec fn span(s: (usize, usize)) -> (int, int) {
    (s.0 as int, s.1 as int)
}

/// The optional selection `s` as a pair of mathematical integers.
pub open spec fn opt_span(s: Option<(usize, usize)>) -> Option<(int, int)> {
    match s {
        Some(s) => Some(span(s)),
        None => None,
    }
}

/// The optional index `i` as a mathematical integer.
pub open spec fn opt_index(i: Option<usize>) -> Option<int> {
    match i {
        Some(i) => Some(i as int),
        None => None,
    }
}

/// The failure, if any, of reading into a buffer of `len` lines: a given
/// index is checked first, then the attempt to read.
pub open spec fn read_from_fault(
    len: nat,
    attempt: Result<Vec<String>, IoFailure>,
    index: Option<usize>,
    must_exist: bool,
) -> Option<EditError> {
    match index {
        Some(i) if index_fault(len, i as int) is Some => index_fault(len, i as int),
        _ => read_fault(attempt, must_exist),
    }
}

/// The failure, if any, of writing `selection` from a buffer of `len`
/// lines: a given selection is checked first, then the attempt to write.
pub open spec fn write_to_fault(
    len: nat,
    selection: Option<(usize, usize)>,
    attempt: Result<(), IoFailure>,
) -> Option<EditError> {
    match selection {
        Some(s) if selection_fault(len, s.0 as int, s.1 as int) is Some => selection_fault(
            len,
            s.0 as int,
            s.1 as int,
        ),
        _ => match attempt {
            Ok(_) => None,
            Err(failure) => Some(failure.error()),
        },
    }
}

/// A line buffer that supports the base commands of an ed-style editor.
pub trait Buffer {
    /// What the buffer holds.
    spec fn state(&self) -> BufferState;

    /// The number of lines.
    fn len(&self) -> (n: usize)
        ensures
            n == self.state().len(),
    ;

    /// The index of the first line tagged `tag`; `NoMatch` if there is
    /// none.
    fn get_tag(&self, tag: char) -> (r: Result<usize, EditError>)
        ensures
            match r {
                Ok(i) => self.state().first_tagged(tag, i as int),
                Err(e) => e == EditError::NoMatch && self.state().untagged(tag),
            },
    ;

    /// The index of the line nearest to `curr_line` that matches `pattern`,
    /// looking only at the lines after `curr_line`, or with `backwards`
    /// only at those before it.
    ///
    /// Fails with `IndexTooBig` if `curr_line` is no valid index, else with
    /// `InvalidRegex` if `pattern` does not compile, else with `NoMatch` if
    /// no line looked at matches.
    fn get_matching(&self, pattern: &str, curr_line: usize, backwards: bool) -> (r: Result<
        usize,
        EditError,
    >)
        ensures
            match r {
                Ok(i) => pattern_fault(
                    index_fault(self.state().len(), curr_line as int),
                    pattern@,
                ) is None && self.state().nearest_match(
                    pattern@,
                    curr_line as int,
                    backwards,
                    i as int,
                ),
                Err(e) => if e == EditError::NoMatch {
                    pattern_fault(index_fault(self.state().len(), curr_line as int), pattern@)
                        is None && self.state().no_match(pattern@, curr_line as int, backwards)
                } else {
                    pattern_fault(index_fault(self.state().len(), curr_line as int), pattern@)
                        == Some(e)
                },
            },
    ;

    /// Marks every line of `selection` that matches `pattern` (with
    /// `inverse`, every one that does not) and unmarks all other lines.
    ///
    /// Fails with the selection's fault, else with `InvalidRegex` if
    /// `pattern` does not compile.
    fn mark_matching(&mut self, pattern: &str, selection: (usize, usize), inverse: bool) -> (r:
        Result<(), EditError>)
        ensures
            r == outcome(
                pattern_fault(
                    selection_fault(
                        old(self).state().len(),
                        selection.0 as int,
                        selection.1 as int,
                    ),
                    pattern@,
                ),
            ),
            final(self).state() == if r is Ok {
                old(self).state().mark_matching(
                    pattern@,
                    selection.0 as int,
                    selection.1 as int,
                    inverse,
                )
            } else {
                old(self).state()
            },
    ;

    /// The index of the first marked line, which loses its mark; `None`
    /// once no line is marked. Never fails.
    fn get_marked(&mut self) -> (r: Result<Option<usize>, EditError>)
        ensures
            match r {
                Ok(Some(i)) => old(self).state().first_marked(i as int) && final(self).state()
                    == old(self).state().clear_mark(i as int),
                Ok(None) => old(self).state().unmarked() && final(self).state() == old(
                    self,
                ).state(),
                Err(_) => false,
            },
    ;

    /// Gives line `index` the tag `tag`, whatever character that is.
    ///
    /// Fails with `IndexTooBig` if there is no line `index`.
    fn tag_line(&mut self, index: usize, tag: char) -> (r: Result<(), EditError>)
        ensures
            r == if index < old(self).state().len() {
                Ok::<(), EditError>(())
            } else {
                Err(EditError::IndexTooBig)
            },
            final(self).state() == if r is Ok {
                old(self).state().tag_line(index as int, tag)
            } else {
                old(self).state()
            },
    ;

    /// Inserts `data` as fresh lines before line `index`.
    ///
    /// Fails with `IndexTooBig` if `index` is no valid index.
    fn insert(&mut self, data: &[String], index: usize) -> (r: Result<(), EditError>)
        ensures
            r == outcome(index_fault(old(self).state().len(), index as int)),
            final(self).state() == if r is Ok {
                old(self).state().insert(views(data@), index as int)
            } else {
                old(self).state()
            },
    ;

    /// Moves the lines of `selection` out of the buffer into the clipboard,
    /// whose former content is lost.
    ///
    /// Fails with the selection's fault.
    fn cut(&mut self, selection: (usize, usize)) -> (r: Result<(), EditError>)
        ensures
            r == outcome(
                selection_fault(old(self).state().len(), selection.0 as int, selection.1 as int),
            ),
            final(self).state() == if r is Ok {
                old(self).state().cut(selection.0 as int, selection.1 as int)
            } else {
                old(self).state()
            },
    ;

    /// Cuts `selection` and inserts `data` where it began, in one step.
    ///
    /// Fails with the selection's fault.
    fn change(&mut self, data: &[String], selection: (usize, usize)) -> (r: Result<
        (),
        EditError,
    >)
        ensures
            r == outcome(
                selection_fault(old(self).state().len(), selection.0 as int, selection.1 as int),
            ),
            final(self).state() == if r is Ok {
                old(self).state().change(views(data@), selection.0 as int, selection.1 as int)
            } else {
                old(self).state()
            },
    ;

    /// Takes the lines of `selection` out and puts them back in front of
    /// what was line `index`.
    ///
    /// Fails with the selection's fault, else with `IndexTooBig` if `index`
    /// is no valid index, else with `MoveIntoSelf` if `index` lies strictly
    /// between the selection's start and end.
    fn mov(&mut self, selection: (usize, usize), index: usize) -> (r: Result<(), EditError>)
        ensures
            r == outcome(
                mov_fault(
                    old(self).state().len(),
                    selection.0 as int,
                    selection.1 as int,
                    index as int,
                ),
            ),
            final(self).state() == if r is Ok {
                old(self).state().mov(selection.0 as int, selection.1 as int, index as int)
            } else {
                old(self).state()
            },
    ;

    /// Inserts copies of the lines of `selection` at `index`, or, where
    /// `index` is not after the selection's start, one line before it.
    ///
    /// Fails with the selection's fault, else with `IndexTooBig` if `index`
    /// is no valid index.
    fn mov_copy(&mut self, selection: (usize, usize), index: usize) -> (r: Result<(), EditError>)
        ensures
            r == outcome(
                mov_copy_fault(
                    old(self).state().len(),
                    selection.0 as int,
                    selection.1 as int,
                    index as int,
                ),
            ),
            final(self).state() == if r is Ok {
                old(self).state().mov_copy(selection.0 as int, selection.1 as int, index as int)
            } else {
                old(self).state()
            },
    ;

    /// Joins the lines of `selection` into its first line.
    ///
    /// Fails with the selection's fault.
    fn join(&mut self, selection: (usize, usize)) -> (r: Result<(), EditError>)
        ensures
            r == outcome(
                selection_fault(old(self).state().len(), selection.0 as int, selection.1 as int),
            ),
            final(self).state() == if r is Ok {
                old(self).state().join(selection.0 as int, selection.1 as int)
            } else {
                old(self).state()
            },
    ;

    /// Replaces the clipboard by copies of the lines of `selection`.
    ///
    /// Fails with the selection's fault.
    fn copy(&mut self, selection: (usize, usize)) -> (r: Result<(), EditError>)
        ensures
            r == outcome(
                selection_fault(old(self).state().len(), selection.0 as int, selection.1 as int),
            ),
            final(self).state() == if r is Ok {
                old(self).state().copy(selection.0 as int, selection.1 as int)
            } else {
                old(self).state()
            },
    ;

    /// Inserts copies of the clipboard's lines before line `index` and
    /// returns how many there are.
    ///
    /// Fails with `IndexTooBig` if `index` is no valid index.
    fn paste(&mut self, index: usize) -> (r: Result<usize, EditError>)
        ensures
            match r {
                Ok(n) => index_fault(old(self).state().len(), index as int) is None && n == old(
                    self,
                ).state().clipboard.len(),
                Err(e) => index_fault(old(self).state().len(), index as int) == Some(e),
            },
            final(self).state() == if r is Ok {
                old(self).state().paste(index as int)
            } else {
                old(self).state()
            },
    ;

    /// Searches the joined texts of `selection` for `pattern.0` and replaces
    /// the first match, or with `global` every match, by `pattern.1`; the
    /// result, split into lines again, takes the selection's place. Returns
    /// the selection that spans the new lines.
    ///
    /// Fails with the selection's fault, which leaves the buffer alone, else
    /// with `InvalidRegex` if `pattern.0` does not compile, which leaves the
    /// lines alone but drops the saved flag.
    fn search_replace(
        &mut self,
        pattern: (&str, &str),
        selection: (usize, usize),
        global: bool,
    ) -> (r: Result<(usize, usize), EditError>)
        ensures
            match r {
                Ok(s) => pattern_fault(
                    selection_fault(
                        old(self).state().len(),
                        selection.0 as int,
                        selection.1 as int,
                    ),
                    pattern.0@,
                ) is None && span(s) == old(self).state().substituted_selection(
                    crate::model::replaced(
                        pattern.0@,
                        old(self).state().blob(selection.0 as int, selection.1 as int),
                        pattern.1@,
                        global,
                    ),
                    selection.0 as int,
                    selection.1 as int,
                ),
                Err(e) => pattern_fault(
                    selection_fault(
                        old(self).state().len(),
                        selection.0 as int,
                        selection.1 as int,
                    ),
                    pattern.0@,
                ) == Some(e),
            },
            final(self).state() == old(self).state().search_replace(
                pattern.0@,
                pattern.1@,
                selection.0 as int,
                selection.1 as int,
                global,
            ),
    ;

    /// Takes in the lines of a file that the caller tried to read: before
    /// line `index`, or with no index in place of everything. Returns the
    /// number of lines taken in.
    ///
    /// Fails with `IndexTooBig` if a given index is not valid, else with
    /// what the attempt to read comes to.
    fn read_from(
        &mut self,
        attempt: Result<Vec<String>, IoFailure>,
        index: Option<usize>,
        must_exist: bool,
    ) -> (r: Result<usize, EditError>)
        ensures
            match r {
                Ok(n) => read_from_fault(old(self).state().len(), attempt, index, must_exist)
                    is None && n == read_texts(attempt).len(),
                Err(e) => read_from_fault(old(self).state().len(), attempt, index, must_exist)
                    == Some(e),
            },
            final(self).state() == if r is Ok {
                old(self).state().read(read_texts(attempt), opt_index(index))
            } else {
                old(self).state()
            },
    ;

    /// The texts to hand to a file when writing `selection`, or the whole
    /// buffer with no selection.
    ///
    /// Fails with a given selection's fault.
    fn lines_to_write(&self, selection: Option<(usize, usize)>) -> (r: Result<
        Vec<String>,
        EditError,
    >)
        ensures
            match r {
                Ok(texts) => write_to_fault(self.state().len(), selection, Ok(())) is None
                    && views(texts@) == self.state().written_texts(opt_span(selection)),
                Err(e) => write_to_fault(self.state().len(), selection, Ok(())) == Some(e),
            },
    ;

    /// Takes note of the caller's attempt to write `selection`, or the whole
    /// buffer with no selection, to a file: where it succeeded and covered
    /// the whole buffer, the buffer is saved.
    ///
    /// Fails with a given selection's fault, else with what the attempt to
    /// write came to.
    fn write_to(&mut self, selection: Option<(usize, usize)>, attempt: Result<(), IoFailure>) -> (r:
        Result<(), EditError>)
        ensures
            r == outcome(write_to_fault(old(self).state().len(), selection, attempt)),
            final(self).state() == if r is Ok {
                old(self).state().written(opt_span(selection))
            } else {
                old(self).state()
            },
    ;

    /// Whether nothing was rewritten since the whole buffer was last
    /// written.
    fn saved(&self) -> (b: bool)
        ensures
            b == self.state().saved,
    ;

    /// The texts of the lines of `selection`.
    ///
    /// Fails with the selection's fault.
    fn get_selection(&self, selection: (usize, usize)) -> (r: Result<Vec<String>, EditError>)
        ensures
            match r {
                Ok(texts) => selection_fault(
                    self.state().len(),
                    selection.0 as int,
                    selection.1 as int,
                ) is None && views(texts@) == crate::model::texts_of(
                    self.state().selected(selection.0 as int, selection.1 as int),
                ),
                Err(e) => selection_fault(
                    self.state().len(),
                    selection.0 as int,
                    selection.1 as int,
                ) == Some(e),
            },
    ;
}

/// Checks that `index` is an insertion point among `len` lines.
pub(crate) fn check_index(len: usize, index: usize) -> (r: Result<(), EditError>)
    ensures
        r == outcome(index_fault(len as nat, index as int)),
{
    if index > len {
        return Err(EditError::IndexTooBig);
    }
    Ok(())
}

/// Checks that `selection` is not empty and lies within `len` lines.
pub(crate) fn check_selection(len: usize, selection: (usize, usize)) -> (r: Result<(), EditError>)
    ensures
        r == outcome(selection_fault(len as nat, selection.0 as int, selection.1 as int)),
{
    if selection.0 >= selection.1 {
        return Err(EditError::SelectionEmpty);
    }
    if selection.1 >= len {
        return Err(EditError::IndexTooBig);
    }
    Ok(())
}

/// Checks that `index` is an insertion point of `buffer`: any position from
/// 0 to the number of lines, the latter included, which is where lines are
/// appended.
pub fn verify_index<B: Buffer>(buffer: &B, index: usize) -> (r: Result<(), EditError>)
    ensures
        r == outcome(index_fault(buffer.state().len(), index as int)),
{
    check_index(buffer.len(), index)
}

/// Checks that `selection` is not empty and that all its lines exist in
/// `buffer`. On a buffer without lines every selection fails.
pub fn verify_selection<B: Buffer>(buffer: &B, selection: (usize, usize)) -> (r: Result<
    (),
    EditError,
>)
    ensures
        r == outcome(
            selection_fault(buffer.state().len(), selection.0 as int, selection.1 as int),
        ),
{
    check_selection(buffer.len(), selection)
}

} // verus!
