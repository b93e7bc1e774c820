use edbuf::buffer::file::IoFailure;
use edbuf::buffer::Buffer;
use edbuf::cmd::command::{
    Action, Change, Cmd, CmdError, Delete, Insert, Join, Move, Open, Print, Read, State,
    Substitute, Write,
};
use edbuf::error::EditError;

fn lines(texts: &[&str]) -> Vec<String> {
    texts.iter().map(|t| t.to_string()).collect()
}

fn session(texts: &[&str]) -> State {
    let mut state = State::new();
    state.buffer.insert(&lines(texts), 0).unwrap();
    state
}

fn content(state: &State) -> Vec<String> {
    state.buffer.lines_to_write(None).unwrap()
}

fn quiet_insert(index: usize, input: &[&str]) -> Cmd {
    Cmd::Insert(Insert { index, input: lines(input), p: false, n: false, h: false, l: false })
}

#[test]
fn a_new_session_is_empty() {
    let state = State::new();
    assert_eq!(state.buffer.len(), 0);
    assert!(state.buffer.saved());
    assert_eq!(state.selection, None);
    assert_eq!(state.file, None);
    assert!(!state.done);
    assert!(!state.print_errors);
    assert_eq!(state.error, None);
}

#[test]
fn quit_ends_a_saved_session() {
    let mut state = State::new();
    assert_eq!(Cmd::Quit.execute(&mut state), Ok(Action::Nothing));
    assert!(state.done);
}

#[test]
fn quit_refuses_to_lose_changes() {
    let mut state = session(&["a\n"]);
    assert_eq!(Cmd::Quit.execute(&mut state), Err(CmdError::UnsavedChanges));
    assert!(!state.done);
}

#[test]
fn force_quit_ends_any_session() {
    let mut state = session(&["a\n"]);
    assert_eq!(Cmd::ForceQuit.execute(&mut state), Ok(Action::Nothing));
    assert!(state.done);
}

#[test]
fn perror_asks_to_show_the_last_error() {
    let mut state = State::new();
    assert_eq!(Cmd::Perror.execute(&mut state), Ok(Action::ShowError(None)));
    state.error = Some(CmdError::Edit(EditError::NoMatch));
    assert_eq!(
        Cmd::Perror.execute(&mut state),
        Ok(Action::ShowError(Some(CmdError::Edit(EditError::NoMatch))))
    );
}

#[test]
fn set_perror_switches_the_showing_of_errors() {
    let mut state = State::new();
    assert_eq!(Cmd::SetPerror.execute(&mut state), Ok(Action::Nothing));
    assert!(state.print_errors);
    assert_eq!(Cmd::SetPerror.execute(&mut state), Ok(Action::Nothing));
    assert!(!state.print_errors);
}

#[test]
fn print_selects_what_it_shows() {
    let mut state = session(&["a\n", "b\n", "c\n"]);
    let print = Print { selection: (1, 2), n: true, h: false, l: true };
    assert_eq!(Cmd::Print(print).execute(&mut state), Ok(Action::Show(print)));
    assert_eq!(state.selection, Some((1, 2)));
}

#[test]
fn print_of_a_bad_selection_fails() {
    let mut state = session(&["a\n", "b\n", "c\n"]);
    let print = Print { selection: (1, 3), n: false, h: false, l: false };
    assert_eq!(
        Cmd::Print(print).execute(&mut state),
        Err(CmdError::Edit(EditError::IndexTooBig))
    );
    assert_eq!(state.selection, None);
}

#[test]
fn print_from_state_takes_the_selection_or_everything() {
    let mut state = session(&["a\n", "b\n", "c\n"]);
    assert_eq!(
        Print::from_state(&state, true, false, true),
        Print { selection: (0, 3), n: true, h: false, l: true }
    );
    state.selection = Some((1, 2));
    assert_eq!(
        Print::from_state(&state, false, true, false),
        Print { selection: (1, 2), n: false, h: true, l: false }
    );
}

#[test]
fn insert_at_the_top_selects_from_the_first_line() {
    let mut state = session(&["x\n"]);
    assert_eq!(quiet_insert(0, &["a\n", "b\n"]).execute(&mut state), Ok(Action::Nothing));
    assert_eq!(content(&state), lines(&["a\n", "b\n", "x\n"]));
    assert_eq!(state.selection, Some((0, 2)));
}

#[test]
fn insert_below_the_top_selects_from_the_line_before() {
    let mut state = session(&["x\n", "y\n", "z\n"]);
    assert_eq!(quiet_insert(2, &["a\n", "b\n"]).execute(&mut state), Ok(Action::Nothing));
    assert_eq!(content(&state), lines(&["x\n", "y\n", "a\n", "b\n", "z\n"]));
    assert_eq!(state.selection, Some((1, 3)));
}

#[test]
fn insert_with_a_print_flag_shows_the_new_selection() {
    let mut state = session(&["x\n", "y\n", "z\n"]);
    let insert =
        Insert { index: 1, input: lines(&["a\n"]), p: false, n: true, h: true, l: false };
    assert_eq!(
        Cmd::Insert(insert).execute(&mut state),
        Ok(Action::Show(Print { selection: (0, 1), n: true, h: true, l: false }))
    );
    assert_eq!(content(&state), lines(&["x\n", "a\n", "y\n", "z\n"]));
}

#[test]
fn insert_whose_selection_cannot_be_shown_fails_after_inserting() {
    let mut state = State::new();
    let insert =
        Insert { index: 0, input: lines(&["a\n"]), p: true, n: false, h: false, l: false };
    assert_eq!(
        Cmd::Insert(insert).execute(&mut state),
        Err(CmdError::Edit(EditError::IndexTooBig))
    );
    assert_eq!(content(&state), lines(&["a\n"]));
    assert_eq!(state.selection, Some((0, 1)));
}

#[test]
fn insert_command_beyond_the_end_fails_and_changes_nothing() {
    let mut state = session(&["x\n"]);
    state.selection = Some((0, 0));
    assert_eq!(
        quiet_insert(2, &["a\n"]).execute(&mut state),
        Err(CmdError::Edit(EditError::IndexTooBig))
    );
    assert_eq!(content(&state), lines(&["x\n"]));
    assert_eq!(state.selection, Some((0, 0)));
}

#[test]
fn delete_cuts_the_selection_and_selects_nothing() {
    let mut state = session(&["a\n", "b\n", "c\n"]);
    state.selection = Some((0, 1));
    assert_eq!(
        Cmd::Delete(Delete { selection: (1, 2) }).execute(&mut state),
        Ok(Action::Nothing)
    );
    assert_eq!(content(&state), lines(&["a\n"]));
    assert_eq!(state.selection, None);
    assert_eq!(state.buffer.paste(1), Ok(2));
}

#[test]
fn delete_of_a_bad_selection_fails_and_changes_nothing() {
    let mut state = session(&["a\n", "b\n", "c\n"]);
    state.selection = Some((0, 1));
    assert_eq!(
        Cmd::Delete(Delete { selection: (2, 2) }).execute(&mut state),
        Err(CmdError::Edit(EditError::SelectionEmpty))
    );
    assert_eq!(content(&state), lines(&["a\n", "b\n", "c\n"]));
    assert_eq!(state.selection, Some((0, 1)));
}

#[test]
fn change_selects_from_the_start_over_the_number_of_new_lines() {
    let mut state = session(&["a\n", "b\n", "c\n", "d\n"]);
    let change = Change {
        selection: (1, 2),
        input: lines(&["x\n", "y\n", "z\n"]),
        p: false,
        n: false,
        h: false,
        l: false,
    };
    assert_eq!(Cmd::Change(change).execute(&mut state), Ok(Action::Nothing));
    assert_eq!(content(&state), lines(&["a\n", "x\n", "y\n", "z\n", "d\n"]));
    assert_eq!(state.selection, Some((1, 4)));
}

#[test]
fn change_with_a_print_flag_shows_the_new_selection() {
    let mut state = session(&["a\n", "b\n", "c\n", "d\n"]);
    let change = Change {
        selection: (0, 1),
        input: lines(&["x\n"]),
        p: false,
        n: false,
        h: false,
        l: true,
    };
    assert_eq!(
        Cmd::Change(change).execute(&mut state),
        Ok(Action::Show(Print { selection: (0, 1), n: false, h: false, l: true }))
    );
    assert_eq!(content(&state), lines(&["x\n", "c\n", "d\n"]));
}

#[test]
fn move_selects_as_many_lines_from_the_index_on() {
    let mut state = session(&["a\n", "b\n", "c\n", "d\n", "e\n"]);
    assert_eq!(
        Cmd::Move(Move { selection: (0, 1), index: 3 }).execute(&mut state),
        Ok(Action::Nothing)
    );
    assert_eq!(content(&state), lines(&["c\n", "a\n", "b\n", "d\n", "e\n"]));
    assert_eq!(state.selection, Some((3, 4)));
}

#[test]
fn move_into_the_selection_fails_and_changes_nothing() {
    let mut state = session(&["a\n", "b\n", "c\n", "d\n", "e\n"]);
    assert_eq!(
        Cmd::Move(Move { selection: (0, 2), index: 1 }).execute(&mut state),
        Err(CmdError::Edit(EditError::MoveIntoSelf))
    );
    assert_eq!(content(&state), lines(&["a\n", "b\n", "c\n", "d\n", "e\n"]));
    assert_eq!(state.selection, None);
}

#[test]
fn copy_selects_as_many_lines_from_the_index_on() {
    let mut state = session(&["a\n", "b\n", "c\n"]);
    let copy = edbuf::cmd::command::Copy { selection: (0, 1), index: 3 };
    assert_eq!(Cmd::Copy(copy).execute(&mut state), Ok(Action::Nothing));
    assert_eq!(content(&state), lines(&["a\n", "b\n", "c\n", "a\n", "b\n"]));
    assert_eq!(state.selection, Some((3, 4)));
}

#[test]
fn join_selects_the_joined_line_and_the_next() {
    let mut state = session(&["a\n", "b\n", "c\n", "d\n"]);
    assert_eq!(Cmd::Join(Join { selection: (1, 2) }).execute(&mut state), Ok(Action::Nothing));
    assert_eq!(content(&state), lines(&["a\n", "bc\n", "d\n"]));
    assert_eq!(state.selection, Some((1, 2)));
}

#[test]
fn substitute_selects_the_new_lines() {
    let mut state = session(&["foo\n", "bar\n", "baz\n"]);
    let substitute = Substitute {
        selection: (0, 1),
        expression: ("o".to_string(), "\n".to_string()),
        g: true,
        p: false,
        n: false,
        h: false,
        l: false,
    };
    assert_eq!(Cmd::Substitute(substitute).execute(&mut state), Ok(Action::Nothing));
    assert_eq!(content(&state), lines(&["f\n", "\n", "\n", "bar\n", "baz\n"]));
    assert_eq!(state.selection, Some((0, 3)));
}

#[test]
fn substitute_with_a_bad_pattern_fails() {
    let mut state = session(&["foo\n", "bar\n"]);
    state.selection = Some((0, 1));
    let substitute = Substitute {
        selection: (0, 1),
        expression: ("(".to_string(), "x".to_string()),
        g: false,
        p: true,
        n: false,
        h: false,
        l: false,
    };
    assert_eq!(
        Cmd::Substitute(substitute).execute(&mut state),
        Err(CmdError::Edit(EditError::InvalidRegex))
    );
    assert_eq!(content(&state), lines(&["foo\n", "bar\n"]));
    assert_eq!(state.selection, Some((0, 1)));
}

#[test]
fn open_asks_for_the_file_and_starts_over_with_its_lines() {
    let mut state = session(&["old\n"]);
    let action = Cmd::Open(Open { path: "notes.txt".to_string() }).execute(&mut state);
    assert_eq!(action, Ok(Action::ReadFile { path: "notes.txt".to_string(), index: None }));
    assert_eq!(content(&state), lines(&["old\n"]));

    assert_eq!(state.opened("notes.txt".to_string(), Ok(lines(&["a\n", "b\n"]))), Ok(()));
    assert_eq!(content(&state), lines(&["a\n", "b\n"]));
    assert_eq!(state.file, Some("notes.txt".to_string()));
    assert_eq!(state.selection, Some((0, 2)));
    assert!(!state.buffer.saved());
}

#[test]
fn open_without_a_path_fails() {
    let mut state = State::new();
    state.file = Some("notes.txt".to_string());
    assert_eq!(
        Cmd::Open(Open { path: String::new() }).execute(&mut state),
        Err(CmdError::NoFileSpecified)
    );
}

#[test]
fn open_of_a_file_that_cannot_be_read_leaves_the_session_alone() {
    let mut state = session(&["old\n"]);
    assert_eq!(
        state.opened("gone.txt".to_string(), Err(IoFailure::NotFound)),
        Err(CmdError::Edit(EditError::NotFound))
    );
    assert_eq!(
        state.opened("locked.txt".to_string(), Err(IoFailure::PermissionDenied)),
        Err(CmdError::Edit(EditError::PermissionDenied))
    );
    assert_eq!(content(&state), lines(&["old\n"]));
    assert_eq!(state.file, None);
}

#[test]
fn open_empties_the_clipboard() {
    let mut state = session(&["a\n", "b\n"]);
    state.buffer.copy((0, 1)).unwrap();
    state.opened("notes.txt".to_string(), Ok(lines(&["x\n"]))).unwrap();
    assert_eq!(state.buffer.paste(0), Ok(0));
}

#[test]
fn read_asks_for_the_named_file_or_the_sessions() {
    let mut state = session(&["a\n"]);
    assert_eq!(
        Cmd::Read(Read { index: 1, path: String::new() }).execute(&mut state),
        Err(CmdError::NoFileSpecified)
    );
    assert_eq!(
        Cmd::Read(Read { index: 1, path: "other.txt".to_string() }).execute(&mut state),
        Ok(Action::ReadFile { path: "other.txt".to_string(), index: Some(1) })
    );
    state.file = Some("notes.txt".to_string());
    assert_eq!(
        Cmd::Read(Read { index: 0, path: String::new() }).execute(&mut state),
        Ok(Action::ReadFile { path: "notes.txt".to_string(), index: Some(0) })
    );
    assert_eq!(
        Cmd::Read(Read { index: 0, path: "other.txt".to_string() }).execute(&mut state),
        Ok(Action::ReadFile { path: "other.txt".to_string(), index: Some(0) })
    );
    assert_eq!(content(&state), lines(&["a\n"]));
}

#[test]
fn read_in_inserts_the_lines_and_selects_them() {
    let mut state = session(&["a\n", "d\n"]);
    assert_eq!(state.read_in(1, Ok(lines(&["b\n", "c\n"]))), Ok(()));
    assert_eq!(content(&state), lines(&["a\n", "b\n", "c\n", "d\n"]));
    assert_eq!(state.selection, Some((1, 3)));
}

#[test]
fn read_in_fails_on_a_bad_index_or_an_unreadable_file() {
    let mut state = session(&["a\n", "d\n"]);
    assert_eq!(
        state.read_in(3, Ok(lines(&["b\n"]))),
        Err(CmdError::Edit(EditError::IndexTooBig))
    );
    assert_eq!(
        state.read_in(1, Err(IoFailure::NotFound)),
        Err(CmdError::Edit(EditError::NotFound))
    );
    assert_eq!(state.read_in(1, Err(IoFailure::Other)), Err(CmdError::Edit(EditError::Unknown)));
    assert_eq!(content(&state), lines(&["a\n", "d\n"]));
    assert_eq!(state.selection, None);
}

#[test]
fn write_asks_for_the_file_to_write() {
    let mut state = session(&["a\n", "b\n", "c\n"]);
    assert_eq!(
        Cmd::Write(Write { selection: (0, 2), path: String::new() }).execute(&mut state),
        Err(CmdError::NoFileSpecified)
    );
    assert_eq!(
        Cmd::Write(Write { selection: (0, 2), path: "out.txt".to_string() }).execute(&mut state),
        Ok(Action::WriteFile { path: "out.txt".to_string(), selection: (0, 2) })
    );
    state.file = Some("notes.txt".to_string());
    assert_eq!(
        Cmd::Write(Write { selection: (1, 2), path: String::new() }).execute(&mut state),
        Ok(Action::WriteFile { path: "notes.txt".to_string(), selection: (1, 2) })
    );
    assert_eq!(
        Cmd::Write(Write { selection: (1, 3), path: String::new() }).execute(&mut state),
        Err(CmdError::Edit(EditError::IndexTooBig))
    );
    assert_eq!(state.selection, None);
    assert!(!state.buffer.saved());
}

#[test]
fn wrote_selects_what_was_written_and_saves_a_whole_buffer() {
    let mut state = session(&["a\n", "b\n", "c\n"]);
    assert_eq!(state.wrote((0, 1), Ok(())), Ok(()));
    assert_eq!(state.selection, Some((0, 1)));
    assert!(!state.buffer.saved());
    assert_eq!(state.wrote((0, 2), Ok(())), Ok(()));
    assert_eq!(state.selection, Some((0, 2)));
    assert!(state.buffer.saved());
}

#[test]
fn wrote_fails_when_the_write_failed() {
    let mut state = session(&["a\n", "b\n", "c\n"]);
    assert_eq!(
        state.wrote((0, 2), Err(IoFailure::PermissionDenied)),
        Err(CmdError::Edit(EditError::PermissionDenied))
    );
    assert_eq!(state.wrote((0, 3), Ok(())), Err(CmdError::Edit(EditError::IndexTooBig)));
    assert_eq!(state.selection, None);
    assert!(!state.buffer.saved());
}
