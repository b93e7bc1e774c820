//! The commands of the editor and what running one does to a session.
//!
//! A command is plain data. Running it changes the session and yields an
//! action for the caller: nothing, something to show, or a file to read or
//! write. The library touches neither the screen nor the file system, so a
//! command that needs a file ends in two steps: running it yields the
//! action, and the caller hands what came of the action to the session.

use crate::buffer::file::{read_fault, read_file, read_texts, IoFailure};
use crate::buffer::{write_to_fault, Buffer, VecBuffer};
use crate::error::EditError;
use crate::model::{index_fault, mov_copy_fault, mov_fault, selection_fault, BufferState};
use crate::text::views;
use vstd::prelude::*;

verus! {

/// Why a command was rejected.
#[derive(Clone, Copy, Debug, PartialEq, Eq, Hash, Structural)]
pub enum CmdError {
    /// The buffer, the tokenizer or the file system reported a failure.
    Edit(EditError),
    /// Quitting would lose changes.
    UnsavedChanges,
    /// The command names no file and the session has none.
    NoFileSpecified,
}

/// Show the lines of `selection`: numbered with `n`, highlighted with `h`,
/// literally with `l`.
#[derive(Clone, Copy, Debug, PartialEq, Eq, Hash)]
pub struct Print {
    pub selection: (usize, usize),
    pub n: bool,
    pub h: bool,
    pub l: bool,
}

/// Insert `input` before line `index`, and with `p`, `n` or `l` show the
/// new selection.
#[derive(Debug, PartialEq, Eq)]
pub struct Insert {
    pub index: usize,
    pub input: Vec<String>,
    pub p: bool,
    pub n: bool,
    pub h: bool,
    pub l: bool,
}

/// Delete the lines of `selection`.
#[derive(Debug, PartialEq, Eq)]
pub struct Delete {
    pub selection: (usize, usize),
}

/// Replace the lines of `selection` by `input`, and with `p`, `n` or `l`
/// show the new selection.
#[derive(Debug, PartialEq, Eq)]
pub struct Change {
    pub selection: (usize, usize),
    pub input: Vec<String>,
    pub p: bool,
    pub n: bool,
    pub h: bool,
    pub l: bool,
}

/// Move the lines of `selection` to `index`.
#[derive(Debug, PartialEq, Eq)]
pub struct Move {
    pub selection: (usize, usize),
    pub index: usize,
}

/// Copy the lines of `selection` to `index`.
#[derive(Debug, PartialEq, Eq)]
pub struct Copy {
    pub selection: (usize, usize),
    pub index: usize,
}

/// Join the lines of `selection` into one.
#[derive(Debug, PartialEq, Eq)]
pub struct Join {
    pub selection: (usize, usize),
}

/// Search the lines of `selection` for `expression.0` and replace the first
/// match, or with `g` every match, by `expression.1`.
#[derive(Debug, PartialEq, Eq)]
pub struct Substitute {
    pub selection: (usize, usize),
    pub expression: (String, String),
    pub g: bool,
    pub p: bool,
    pub n: bool,
    pub h: bool,
    pub l: bool,
}

/// Insert the lines of the file at `path`, or of the session's file if
/// `path` is empty, before line `index`.
#[derive(Debug, PartialEq, Eq)]
pub struct Read {
    pub index: usize,
    pub path: String,
}

/// Start over with the lines of the file at `path`.
#[derive(Debug, PartialEq, Eq)]
pub struct Open {
    pub path: String,
}

/// Write the lines of `selection` to the file at `path`, or to the
/// session's file if `path` is empty.
#[derive(Debug, PartialEq, Eq)]
pub struct Write {
    pub selection: (usize, usize),
    pub path: String,
}

/// A command with its arguments.
#[derive(Debug, PartialEq, Eq)]
pub enum Cmd {
    /// End the session unless there are unsaved changes.
    Quit,
    /// End the session.
    ForceQuit,
    /// Show the last error.
    Perror,
    /// Switch the showing of errors as they occur on or off.
    SetPerror,
    Print(Print),
    Insert(Insert),
    Delete(Delete),
    Change(Change),
    Move(Move),
    Copy(Copy),
    Join(Join),
    Substitute(Substitute),
    Open(Open),
    Read(Read),
    Write(Write),
}

/// What the caller is to do after a command has run.
#[derive(Debug, PartialEq, Eq)]
pub enum Action {
    /// Nothing.
    Nothing,
    /// Show this, the session's last error.
    ShowError(Option<CmdError>),
    /// Show the lines that the print command selects.
    Show(Print),
    /// Read the lines of the file at `path` and hand the attempt to
    /// `State::read_in` with this `index`, or with no index to
    /// `State::opened` with this `path`.
    ReadFile { path: String, index: Option<usize> },
    /// Write the lines of `selection` to the file at `path` and hand the
    /// attempt to `State::wrote` with this `selection`.
    WriteFile { path: String, selection: (usize, usize) },
}

/// An action with its path as a text.
pub enum ActionView {
    Nothing,
    ShowError(Option<CmdError>),
    Show(Print),
    ReadFile { path: Seq<char>, index: Option<usize> },
    WriteFile { path: Seq<char>, selection: (usize, usize) },
}

impl View for Action {
    type V = ActionView;

    open spec fn view(&self) -> ActionView {
        match *self {
            Action::Nothing => ActionView::Nothing,
            Action::ShowError(e) => ActionView::ShowError(e),
            Action::Show(p) => ActionView::Show(p),
            Action::ReadFile { path, index } => ActionView::ReadFile { path: path@, index },
            Action::WriteFile { path, selection } => ActionView::WriteFile {
                path: path@,
                selection,
            },
        }
    }
}

/// An editing session: the buffer and what the commands remember between
/// them.
pub struct State {
    /// The text being edited.
    pub buffer: VecBuffer,
    /// The selection that the last command left.
    pub selection: Option<(usize, usize)>,
    /// The file that the buffer was opened from.
    pub file: Option<String>,
    /// Whether the session has ended.
    pub done: bool,
    /// Whether errors are shown as they occur.
    pub print_errors: bool,
    /// The last error.
    pub error: Option<CmdError>,
}

/// A session with its buffer and its file as mathematical values.
pub struct Session {
    pub buffer: BufferState,
    pub selection: Option<(usize, usize)>,
    pub file: Option<Seq<char>>,
    pub done: bool,
    pub print_errors: bool,
    pub error: Option<CmdError>,
}

impl View for State {
    type V = Session;

    open spec fn view(&self) -> Session {
        Session {
            buffer: self.buffer.state(),
            selection: self.selection,
            file: match self.file {
                Some(path) => Some(path@),
                None => None,
            },
            done: self.done,
            print_errors: self.print_errors,
            error: self.error,
        }
    }
}

/// The result of a buffer operation as the result of a command.
pub open spec fn lifted(fault: Option<EditError>) -> Option<CmdError> {
    match fault {
        Some(e) => Some(CmdError::Edit(e)),
        None => None,
    }
}

/// `a + b`, or the largest index where the sum does not fit.
pub open spec fn capped_sum(a: usize, b: usize) -> usize {
    if a + b > usize::MAX {
        usize::MAX
    } else {
        (a + b) as usize
    }
}

/// The selection that an insertion of `count` lines before line `index`
/// leaves: from the line before the new ones to the last of them, or at the
/// top from the first line to just after the last new one.
pub open spec fn inserted_selection(index: usize, count: usize) -> (usize, usize) {
    if index != 0 {
        ((index - 1) as usize, capped_sum((index - 1) as usize, count))
    } else {
        (0, count)
    }
}

/// The selection that moving or copying `selection` to `index` leaves: as
/// many lines as were selected, from `index` on.
pub open spec fn moved_selection(selection: (usize, usize), index: usize) -> (usize, usize) {
    (index, capped_sum(index, (selection.1 - selection.0) as usize))
}

impl Session {
    /// The selection to show when a command asks for its result to be
    /// shown: the session's, or everything if it has none.
    pub open spec fn shown(self) -> (usize, usize) {
        match self.selection {
            Some(s) => s,
            None => (0, self.buffer.len() as usize),
        }
    }

    /// This session with another buffer.
    pub open spec fn with_buffer(self, buffer: BufferState) -> Session {
        Session { buffer, ..self }
    }

    /// This session with another selection.
    pub open spec fn selecting(self, selection: Option<(usize, usize)>) -> Session {
        Session { selection, ..self }
    }

    /// The file that a command with this `path` means: the path, or the
    /// session's file where the path is empty.
    pub open spec fn target(self, path: Seq<char>) -> Option<Seq<char>> {
        if path.len() > 0 {
            Some(path)
        } else {
            self.file
        }
    }

    /// What showing the current selection comes to: the action, or the
    /// fault of a selection that cannot be shown.
    pub open spec fn show(self, n: bool, h: bool, l: bool) -> Result<ActionView, CmdError> {
        let selection = self.shown();
        match selection_fault(self.buffer.len(), selection.0 as int, selection.1 as int) {
            Some(e) => Err(CmdError::Edit(e)),
            None => Ok(ActionView::Show(Print { selection, n, h, l })),
        }
    }

    /// What a command that may ask for its result to be shown ends in.
    pub open spec fn show_if(self, wanted: bool, n: bool, h: bool, l: bool) -> Result<
        ActionView,
        CmdError,
    > {
        if wanted {
            self.show(n, h, l)
        } else {
            Ok(ActionView::Nothing)
        }
    }
}

impl Cmd {
    /// The session after this command has run on `s`.
    pub open spec fn next(self, s: Session) -> Session {
        match self {
            Cmd::Quit => Session { done: s.done || s.buffer.saved, ..s },
            Cmd::ForceQuit => Session { done: true, ..s },
            Cmd::Perror => s,
            Cmd::SetPerror => Session { print_errors: !s.print_errors, ..s },
            Cmd::Print(c) => if selection_fault(
                s.buffer.len(),
                c.selection.0 as int,
                c.selection.1 as int,
            ) is None {
                s.selecting(Some(c.selection))
            } else {
                s
            },
            Cmd::Insert(c) => if index_fault(s.buffer.len(), c.index as int) is None {
                s.with_buffer(s.buffer.insert(views(c.input@), c.index as int)).selecting(
                    Some(inserted_selection(c.index, c.input@.len() as usize)),
                )
            } else {
                s
            },
            Cmd::Delete(c) => if selection_fault(
                s.buffer.len(),
                c.selection.0 as int,
                c.selection.1 as int,
            ) is None {
                s.with_buffer(s.buffer.cut(c.selection.0 as int, c.selection.1 as int)).selecting(
                    None,
                )
            } else {
                s
            },
            Cmd::Change(c) => if selection_fault(
                s.buffer.len(),
                c.selection.0 as int,
                c.selection.1 as int,
            ) is None {
                s.with_buffer(
                    s.buffer.change(views(c.input@), c.selection.0 as int, c.selection.1 as int),
                ).selecting(
                    Some((c.selection.0, capped_sum(c.selection.0, c.input@.len() as usize))),
                )
            } else {
                s
            },
            Cmd::Move(c) => if mov_fault(
                s.buffer.len(),
                c.selection.0 as int,
                c.selection.1 as int,
                c.index as int,
            ) is None {
                s.with_buffer(
                    s.buffer.mov(c.selection.0 as int, c.selection.1 as int, c.index as int),
                ).selecting(Some(moved_selection(c.selection, c.index)))
            } else {
                s
            },
            Cmd::Copy(c) => if mov_copy_fault(
                s.buffer.len(),
                c.selection.0 as int,
                c.selection.1 as int,
                c.index as int,
            ) is None {
                s.with_buffer(
                    s.buffer.mov_copy(c.selection.0 as int, c.selection.1 as int, c.index as int),
                ).selecting(Some(moved_selection(c.selection, c.index)))
            } else {
                s
            },
            Cmd::Join(c) => if selection_fault(
                s.buffer.len(),
                c.selection.0 as int,
                c.selection.1 as int,
            ) is None {
                s.with_buffer(s.buffer.join(c.selection.0 as int, c.selection.1 as int)).selecting(
                    Some((c.selection.0, (c.selection.0 + 1) as usize)),
                )
            } else {
                s
            },
            Cmd::Substitute(c) => {
                let after = s.buffer.search_replace(
                    c.expression.0@,
                    c.expression.1@,
                    c.selection.0 as int,
                    c.selection.1 as int,
                    c.g,
                );
                if crate::model::pattern_fault(
                    selection_fault(s.buffer.len(), c.selection.0 as int, c.selection.1 as int),
                    c.expression.0@,
                ) is None {
                    let span = s.buffer.substituted_selection(
                        crate::model::replaced(
                            c.expression.0@,
                            s.buffer.blob(c.selection.0 as int, c.selection.1 as int),
                            c.expression.1@,
                            c.g,
                        ),
                        c.selection.0 as int,
                        c.selection.1 as int,
                    );
                    s.with_buffer(after).selecting(Some((span.0 as usize, span.1 as usize)))
                } else {
                    s.with_buffer(after)
                }
            },
            Cmd::Open(_) => s,
            Cmd::Read(_) => s,
            Cmd::Write(_) => s,
        }
    }

    /// What this command, run on `s`, ends in: the action for the caller,
    /// or the reason why the command was rejected.
    pub open spec fn result(self, s: Session) -> Result<ActionView, CmdError> {
        match self {
            Cmd::Quit => if s.buffer.saved {
                Ok(ActionView::Nothing)
            } else {
                Err(CmdError::UnsavedChanges)
            },
            Cmd::ForceQuit => Ok(ActionView::Nothing),
            Cmd::Perror => Ok(ActionView::ShowError(s.error)),
            Cmd::SetPerror => Ok(ActionView::Nothing),
            Cmd::Print(c) => match selection_fault(
                s.buffer.len(),
                c.selection.0 as int,
                c.selection.1 as int,
            ) {
                Some(e) => Err(CmdError::Edit(e)),
                None => Ok(ActionView::Show(c)),
            },
            Cmd::Insert(c) => match index_fault(s.buffer.len(), c.index as int) {
                Some(e) => Err(CmdError::Edit(e)),
                None => self.next(s).show_if(c.p || c.n || c.l, c.n, c.h, c.l),
            },
            Cmd::Delete(c) => match selection_fault(
                s.buffer.len(),
                c.selection.0 as int,
                c.selection.1 as int,
            ) {
                Some(e) => Err(CmdError::Edit(e)),
                None => Ok(ActionView::Nothing),
            },
            Cmd::Change(c) => match selection_fault(
                s.buffer.len(),
                c.selection.0 as int,
                c.selection.1 as int,
            ) {
                Some(e) => Err(CmdError::Edit(e)),
                None => self.next(s).show_if(c.p || c.n || c.l, c.n, c.h, c.l),
            },
            Cmd::Move(c) => match mov_fault(
                s.buffer.len(),
                c.selection.0 as int,
                c.selection.1 as int,
                c.index as int,
            ) {
                Some(e) => Err(CmdError::Edit(e)),
                None => Ok(ActionView::Nothing),
            },
            Cmd::Copy(c) => match mov_copy_fault(
                s.buffer.len(),
                c.selection.0 as int,
                c.selection.1 as int,
                c.index as int,
            ) {
                Some(e) => Err(CmdError::Edit(e)),
                None => Ok(ActionView::Nothing),
            },
            Cmd::Join(c) => match selection_fault(
                s.buffer.len(),
                c.selection.0 as int,
                c.selection.1 as int,
            ) {
                Some(e) => Err(CmdError::Edit(e)),
                None => Ok(ActionView::Nothing),
            },
            Cmd::Substitute(c) => match crate::model::pattern_fault(
                selection_fault(s.buffer.len(), c.selection.0 as int, c.selection.1 as int),
                c.expression.0@,
            ) {
                Some(e) => Err(CmdError::Edit(e)),
                None => Ok(ActionView::Nothing),
            },
            Cmd::Open(c) => if c.path@.len() > 0 {
                Ok(ActionView::ReadFile { path: c.path@, index: None })
            } else {
                Err(CmdError::NoFileSpecified)
            },
            Cmd::Read(c) => match s.target(c.path@) {
                Some(path) => Ok(ActionView::ReadFile { path, index: Some(c.index) }),
                None => Err(CmdError::NoFileSpecified),
            },
            Cmd::Write(c) => match s.target(c.path@) {
                Some(path) => match selection_fault(
                    s.buffer.len(),
                    c.selection.0 as int,
                    c.selection.1 as int,
                ) {
                    Some(e) => Err(CmdError::Edit(e)),
                    None => Ok(ActionView::WriteFile { path, selection: c.selection }),
                },
                None => Err(CmdError::NoFileSpecified),
            },
        }
    }
}

/// `r` with its action, if any, as a view.
pub open spec fn viewed(r: Result<Action, CmdError>) -> Result<ActionView, CmdError> {
    match r {
        Ok(action) => Ok(action@),
        Err(e) => Err(e),
    }
}

impl Print {
    /// The print command that shows what a command left selected: the
    /// session's selection, or everything from the first line to the number
    /// of lines if it has none.
    pub fn from_state(state: &State, n: bool, h: bool, l: bool) -> (print: Print)
        ensures
            print == (Print { selection: state@.shown(), n, h, l }),
    {
        let selection = match state.selection {
            Some(s) => s,
            None => (0, state.buffer.len()),
        };
        Print { selection, n, h, l }
    }
}

impl State {
    /// A session on an empty buffer, with no selection and no file.
    pub fn new() -> (state: State)
        ensures
            state@ == (Session {
                buffer: BufferState::empty(),
                selection: None,
                file: None,
                done: false,
                print_errors: false,
                error: None,
            }),
    {
        State {
            buffer: VecBuffer::new(),
            selection: None,
            file: None,
            done: false,
            print_errors: false,
            error: None,
        }
    }

    /// Shows the selection if `wanted`.
    fn show_if(&mut self, wanted: bool, n: bool, h: bool, l: bool) -> (r: Result<
        Action,
        CmdError,
    >)
        ensures
            final(self)@ == old(self)@,
            viewed(r) == old(self)@.show_if(wanted, n, h, l),
    {
        if !wanted {
            return Ok(Action::Nothing);
        }
        let print = Print::from_state(self, n, h, l);
        match crate::buffer::verify_selection(&self.buffer, print.selection) {
            Ok(()) => Ok(Action::Show(print)),
            Err(e) => Err(CmdError::Edit(e)),
        }
    }

    /// Takes in the lines of the file that an `Open` command named, after
    /// the caller tried to read it: the session starts over on a new buffer
    /// with these lines, remembers `path` as its file and selects from the
    /// first line to the number of lines read.
    ///
    /// Fails with what the attempt to read came to, a missing file
    /// included, and then leaves the session alone.
    pub fn opened(&mut self, path: String, attempt: Result<Vec<String>, IoFailure>) -> (r: Result<
        (),
        CmdError,
    >)
        ensures
            r == match lifted(read_fault(attempt, true)) {
                Some(e) => Err::<(), CmdError>(e),
                None => Ok(()),
            },
            final(self)@ == if r is Ok {
                Session {
                    buffer: BufferState::empty().insert(read_texts(attempt), 0),
                    selection: Some((0, read_texts(attempt).len() as usize)),
                    file: Some(path@),
                    ..old(self)@
                }
            } else {
                old(self)@
            },
    {
        let data = match read_file(attempt, true) {
            Ok(data) => data,
            Err(e) => {
                return Err(CmdError::Edit(e));
            },
        };
        let count = data.len();
        let mut buffer = VecBuffer::new();
        let inserted = buffer.insert(data.as_slice(), 0);
        assert(inserted is Ok);
        self.buffer = buffer;
        self.file = Some(path);
        self.selection = Some((0, count));
        Ok(())
    }

    /// Takes in the lines of the file that a `Read` command named, after
    /// the caller tried to read it: the lines are inserted before line
    /// `index`, and the selection runs from `index` to `index` plus the
    /// number of lines read.
    ///
    /// Fails with `IndexTooBig` if `index` is not valid, else with what the
    /// attempt to read came to, a missing file included, and then leaves
    /// the session alone.
    pub fn read_in(&mut self, index: usize, attempt: Result<Vec<String>, IoFailure>) -> (r: Result<
        (),
        CmdError,
    >)
        ensures
            r == match lifted(
                crate::buffer::read_from_fault(old(self)@.buffer.len(), attempt, Some(index), true),
            ) {
                Some(e) => Err::<(), CmdError>(e),
                None => Ok(()),
            },
            final(self)@ == if r is Ok {
                old(self)@.with_buffer(
                    old(self)@.buffer.insert(read_texts(attempt), index as int),
                ).selecting(Some((index, capped_sum(index, read_texts(attempt).len() as usize))))
            } else {
                old(self)@
            },
    {
        match self.buffer.read_from(attempt, Some(index), true) {
            Ok(count) => {
                self.selection = Some((index, index.saturating_add(count)));
                Ok(())
            },
            Err(e) => Err(CmdError::Edit(e)),
        }
    }

    /// Takes note of what came of writing `selection` for a `Write`
    /// command: where the write succeeded, `selection` becomes the
    /// session's selection, and the buffer is saved if it was written as a
    /// whole.
    ///
    /// Fails with the selection's fault, else with what the attempt to
    /// write came to, and then leaves the session alone.
    pub fn wrote(&mut self, selection: (usize, usize), attempt: Result<(), IoFailure>) -> (r:
        Result<(), CmdError>)
        ensures
            r == match lifted(write_to_fault(old(self)@.buffer.len(), Some(selection), attempt)) {
                Some(e) => Err::<(), CmdError>(e),
                None => Ok(()),
            },
            final(self)@ == if r is Ok {
                old(self)@.with_buffer(
                    old(self)@.buffer.written(Some(crate::buffer::span(selection))),
                ).selecting(Some(selection))
            } else {
                old(self)@
            },
    {
        match self.buffer.write_to(Some(selection), attempt) {
            Ok(()) => {
                self.selection = Some(selection);
                Ok(())
            },
            Err(e) => Err(CmdError::Edit(e)),
        }
    }

    /// The file that a command with this `path` means: the path, or the
    /// session's file where the path is empty.
    fn target(&self, path: String) -> (r: Option<String>)
        ensures
            match r {
                Some(target) => self@.target(path@) == Some(target@),
                None => self@.target(path@) is None,
            },
    {
        if !path.as_str().is_empty() {
            Some(path)
        } else {
            match &self.file {
                Some(file) => Some(file.clone()),
                None => None,
            }
        }
    }
}

impl State {
    /// Runs a `Quit` command.
    fn quit(&mut self) -> (r: Result<Action, CmdError>)
        ensures
            viewed(r) == Cmd::Quit.result(old(self)@),
            final(self)@ == Cmd::Quit.next(old(self)@),
    {
        if self.buffer.saved() {
            self.done = true;
            Ok(Action::Nothing)
        } else {
            Err(CmdError::UnsavedChanges)
        }
    }

    /// Runs a `Print` command.
    fn print(&mut self, print: Print) -> (r: Result<Action, CmdError>)
        ensures
            viewed(r) == Cmd::Print(print).result(old(self)@),
            final(self)@ == Cmd::Print(print).next(old(self)@),
    {
        match crate::buffer::verify_selection(&self.buffer, print.selection) {
            Ok(()) => {
                self.selection = Some(print.selection);
                Ok(Action::Show(print))
            },
            Err(e) => Err(CmdError::Edit(e)),
        }
    }

    /// Runs an `Insert` command.
    fn insert(&mut self, insert: Insert) -> (r: Result<Action, CmdError>)
        ensures
            viewed(r) == Cmd::Insert(insert).result(old(self)@),
            final(self)@ == Cmd::Insert(insert).next(old(self)@),
    {
        match self.buffer.insert(insert.input.as_slice(), insert.index) {
            Ok(()) => {},
            Err(e) => {
                return Err(CmdError::Edit(e));
            },
        }
        let count = insert.input.len();
        let selection = if insert.index != 0 {
            (insert.index - 1, (insert.index - 1).saturating_add(count))
        } else {
            (0, count)
        };
        self.selection = Some(selection);
        self.show_if(insert.p || insert.n || insert.l, insert.n, insert.h, insert.l)
    }

    /// Runs a `Delete` command.
    fn delete(&mut self, delete: Delete) -> (r: Result<Action, CmdError>)
        ensures
            viewed(r) == Cmd::Delete(delete).result(old(self)@),
            final(self)@ == Cmd::Delete(delete).next(old(self)@),
    {
        match self.buffer.cut(delete.selection) {
            Ok(()) => {
                self.selection = None;
                Ok(Action::Nothing)
            },
            Err(e) => Err(CmdError::Edit(e)),
        }
    }

    /// Runs a `Change` command.
    fn change(&mut self, change: Change) -> (r: Result<Action, CmdError>)
        ensures
            viewed(r) == Cmd::Change(change).result(old(self)@),
            final(self)@ == Cmd::Change(change).next(old(self)@),
    {
        match self.buffer.change(change.input.as_slice(), change.selection) {
            Ok(()) => {},
            Err(e) => {
                return Err(CmdError::Edit(e));
            },
        }
        let end = change.selection.0.saturating_add(change.input.len());
        self.selection = Some((change.selection.0, end));
        self.show_if(change.p || change.n || change.l, change.n, change.h, change.l)
    }

    /// Runs a `Move` command.
    fn mov(&mut self, mov: Move) -> (r: Result<Action, CmdError>)
        ensures
            viewed(r) == Cmd::Move(mov).result(old(self)@),
            final(self)@ == Cmd::Move(mov).next(old(self)@),
    {
        match self.buffer.mov(mov.selection, mov.index) {
            Ok(()) => {
                let end = mov.index.saturating_add(mov.selection.1 - mov.selection.0);
                self.selection = Some((mov.index, end));
                Ok(Action::Nothing)
            },
            Err(e) => Err(CmdError::Edit(e)),
        }
    }

    /// Runs a `Copy` command.
    fn copy(&mut self, copy: Copy) -> (r: Result<Action, CmdError>)
        ensures
            viewed(r) == Cmd::Copy(copy).result(old(self)@),
            final(self)@ == Cmd::Copy(copy).next(old(self)@),
    {
        match self.buffer.mov_copy(copy.selection, copy.index) {
            Ok(()) => {
                let end = copy.index.saturating_add(copy.selection.1 - copy.selection.0);
                self.selection = Some((copy.index, end));
                Ok(Action::Nothing)
            },
            Err(e) => Err(CmdError::Edit(e)),
        }
    }

    /// Runs a `Join` command.
    fn join(&mut self, join: Join) -> (r: Result<Action, CmdError>)
        ensures
            viewed(r) == Cmd::Join(join).result(old(self)@),
            final(self)@ == Cmd::Join(join).next(old(self)@),
    {
        match self.buffer.join(join.selection) {
            Ok(()) => {
                self.selection = Some((join.selection.0, join.selection.0 + 1));
                Ok(Action::Nothing)
            },
            Err(e) => Err(CmdError::Edit(e)),
        }
    }

    /// Runs a `Substitute` command.
    fn substitute(&mut self, substitute: Substitute) -> (r: Result<Action, CmdError>)
        ensures
            viewed(r) == Cmd::Substitute(substitute).result(old(self)@),
            final(self)@ == Cmd::Substitute(substitute).next(old(self)@),
    {
        match self.buffer.search_replace(
            (substitute.expression.0.as_str(), substitute.expression.1.as_str()),
            substitute.selection,
            substitute.g,
        ) {
            Ok(selection) => {
                self.selection = Some(selection);
                Ok(Action::Nothing)
            },
            Err(e) => Err(CmdError::Edit(e)),
        }
    }

    /// Runs a `Read` command.
    fn read(&self, read: Read) -> (r: Result<Action, CmdError>)
        ensures
            viewed(r) == Cmd::Read(read).result(self@),
    {
        let index = read.index;
        match self.target(read.path) {
            Some(path) => Ok(Action::ReadFile { path, index: Some(index) }),
            None => Err(CmdError::NoFileSpecified),
        }
    }

    /// Runs a `Write` command.
    fn write(&self, write: Write) -> (r: Result<Action, CmdError>)
        ensures
            viewed(r) == Cmd::Write(write).result(self@),
    {
        let selection = write.selection;
        match self.target(write.path) {
            Some(path) => match crate::buffer::verify_selection(&self.buffer, selection) {
                Ok(()) => Ok(Action::WriteFile { path, selection }),
                Err(e) => Err(CmdError::Edit(e)),
            },
            None => Err(CmdError::NoFileSpecified),
        }
    }
}

impl Cmd {
    /// Runs the command on the session `state` and says what is left for
    /// the caller to do.
    ///
    /// A command that the buffer rejects leaves the session as it was and
    /// fails with the buffer's error. `Quit` fails with `UnsavedChanges` on
    /// an unsaved buffer. `Open`, `Read` and `Write` change nothing: they
    /// fail with `NoFileSpecified` where neither the command nor the
    /// session names a file, and otherwise yield the file to read or write.
    pub fn execute(self, state: &mut State) -> (r: Result<Action, CmdError>)
        ensures
            viewed(r) == self.result(old(state)@),
            final(state)@ == self.next(old(state)@),
    {
        match self {
            Cmd::Quit => state.quit(),
            Cmd::ForceQuit => {
                state.done = true;
                Ok(Action::Nothing)
            },
            Cmd::Perror => Ok(Action::ShowError(state.error)),
            Cmd::SetPerror => {
                state.print_errors = !state.print_errors;
                Ok(Action::Nothing)
            },
            Cmd::Print(print) => state.print(print),
            Cmd::Insert(insert) => state.insert(insert),
            Cmd::Delete(delete) => state.delete(delete),
            Cmd::Change(change) => state.change(change),
            Cmd::Move(mov) => state.mov(mov),
            Cmd::Copy(copy) => state.copy(copy),
            Cmd::Join(join) => state.join(join),
            Cmd::Substitute(substitute) => state.substitute(substitute),
            Cmd::Open(open) => {
                if open.path.as_str().is_empty() {
                    Err(CmdError::NoFileSpecified)
                } else {
                    Ok(Action::ReadFile { path: open.path, index: None })
                }
            },
            Cmd::Read(read) => state.read(read),
            Cmd::Write(write) => state.write(write),
        }
    }
}

} // verus!
