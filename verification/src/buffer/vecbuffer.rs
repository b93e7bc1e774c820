//! The buffer that keeps its lines in a vector.
//!
//! Ranges are moved by splitting the vector and putting the parts together
//! again, so that each operation touches every line at most a few times.

use crate::buffer::file::{read_file, write_file, IoFailure};
use crate::buffer::{check_index, check_selection, Buffer};
use crate::error::EditError;
use crate::model::{fresh_lines, texts_of, BufferState, LineState, NO_TAG};
use crate::pattern::{compile, is_match, pattern_compiles, replace_every, replace_first};
use crate::text::{
    concat, join_texts, lemma_concat_push, lemma_join_push, pop_char, split_framed, to_chars,
    views,
};
use vstd::prelude::*;
use vstd::string::StringExecFns;

verus! {

/// A line as the vector holds it.
#[derive(Clone, Debug, Hash, PartialEq, Eq)]
struct Line {
    tag: char,
    matched: bool,
    text: String,
}

impl View for Line {
    type V = LineState;

    closed spec fn view(&self) -> LineState {
        LineState { tag: self.tag, matched: self.matched, text: self.text@ }
    }
}

/// What `lines` stand for, in order.
spec fn states(lines: Seq<Line>) -> Seq<LineState> {
    Seq::new(lines.len(), |i: int| lines[i]@)
}

/// The states of two runs of lines put together are the two runs' states
/// put together.
broadcast proof fn lemma_states_add(a: Seq<Line>, b: Seq<Line>)
    ensures
        #[trigger] states(a + b) == states(a) + states(b),
{
    assert(states(a + b) =~= states(a) + states(b));
}

/// The states of a part of a run of lines are that part of the run's states.
broadcast proof fn lemma_states_subrange(a: Seq<Line>, i: int, j: int)
    requires
        0 <= i <= j <= a.len(),
    ensures
        #[trigger] states(a.subrange(i, j)) == states(a).subrange(i, j),
{
    assert(states(a.subrange(i, j)) =~= states(a).subrange(i, j));
}

/// The states of a run of lines that grew by one are its states grown by
/// that line's state.
broadcast proof fn lemma_states_push(a: Seq<Line>, line: Line)
    ensures
        #[trigger] states(a.push(line)) == states(a).push(line@),
{
    assert(states(a.push(line)) =~= states(a).push(line@));
}

broadcast group group_states {
    lemma_states_add,
    lemma_states_subrange,
    lemma_states_push,
}

/// A fresh line holding a copy of `text`.
fn fresh_line(text: &String) -> (line: Line)
    ensures
        line@ == LineState::fresh(text@),
{
    Line { tag: NO_TAG, matched: false, text: text.clone() }
}

/// A copy of `line`, tag and mark included.
fn copy_line(line: &Line) -> (copy: Line)
    ensures
        copy@ == line@,
{
    Line { tag: line.tag, matched: line.matched, text: line.text.clone() }
}

/// Appends fresh lines holding `data` to `lines`.
fn push_fresh(lines: &mut Vec<Line>, data: &[String])
    ensures
        states(final(lines)@) == states(old(lines)@) + fresh_lines(views(data@)),
{
    broadcast use group_states;

    let mut i: usize = 0;
    while i < data.len()
        invariant
            i <= data.len(),
            states(lines@) == states(old(lines)@) + fresh_lines(views(data@)).subrange(
                0,
                i as int,
            ),
        decreases data.len() - i,
    {
        let line = fresh_line(&data[i]);
        let ghost before = lines@;
        lines.push(line);
        i += 1;
        assert(line@ == fresh_lines(views(data@))[i - 1]);
        assert(states(lines@) =~= states(before).push(line@));
    }
    assert(fresh_lines(views(data@)).subrange(0, i as int) =~= fresh_lines(views(data@)));
}

/// Appends copies of `from[start..end]` to `lines`.
fn push_copies(lines: &mut Vec<Line>, from: &Vec<Line>, start: usize, end: usize)
    requires
        start <= end <= from.len(),
    ensures
        states(final(lines)@) == states(old(lines)@) + states(from@).subrange(
            start as int,
            end as int,
        ),
{
    broadcast use group_states;

    let mut i: usize = start;
    while i < end
        invariant
            start <= i <= end <= from.len(),
            states(lines@) == states(old(lines)@) + states(from@).subrange(
                start as int,
                i as int,
            ),
        decreases end - i,
    {
        let line = copy_line(&from[i]);
        let ghost before = lines@;
        lines.push(line);
        i += 1;
        assert(line@ == states(from@)[i - 1]);
        assert(states(lines@) =~= states(before).push(line@));
    }
}

/// Copies of the texts of `from[start..end]`.
fn copy_texts(from: &Vec<Line>, start: usize, end: usize) -> (texts: Vec<String>)
    requires
        start <= end <= from.len(),
    ensures
        views(texts@) == texts_of(states(from@).subrange(start as int, end as int)),
{
    let mut texts: Vec<String> = Vec::new();
    let mut i: usize = start;
    while i < end
        invariant
            start <= i <= end <= from.len(),
            views(texts@) == texts_of(states(from@).subrange(start as int, i as int)),
        decreases end - i,
    {
        let text = from[i].text.clone();
        let ghost before = texts@;
        texts.push(text);
        i += 1;
        assert(text@ == states(from@)[i - 1].text);
        assert(views(texts@) =~= views(before).push(text@));
    }
    texts
}

/// The buffer that keeps its lines in a vector.
#[derive(Clone, Debug, Hash, PartialEq, Eq)]
pub struct VecBuffer {
    saved: bool,
    buffer: Vec<Line>,
    clipboard: Vec<Line>,
}

impl VecBuffer {
    /// A buffer without lines. Until it is changed it counts as saved.
    pub fn new() -> (buffer: Self)
        ensures
            buffer.state() == BufferState::empty(),
    {
        let buffer = Self { saved: true, buffer: Vec::new(), clipboard: Vec::new() };
        assert(buffer.state() =~= BufferState::empty());
        buffer
    }
}

impl Buffer for VecBuffer {
    closed spec fn state(&self) -> BufferState {
        BufferState {
            lines: states(self.buffer@),
            clipboard: states(self.clipboard@),
            saved: self.saved,
        }
    }

    fn len(&self) -> (n: usize) {
        self.buffer.len()
    }

    fn get_tag(&self, tag: char) -> (r: Result<usize, EditError>) {
        let mut index: usize = 0;
        while index < self.buffer.len()
            invariant
                index <= self.buffer.len(),
                forall|j: int| 0 <= j < index ==> self.state().lines[j].tag != tag,
            decreases self.buffer.len() - index,
        {
            if tag == self.buffer[index].tag {
                return Ok(index);
            }
            index += 1;
        }
        Err(EditError::NoMatch)
    }

    fn get_matching(&self, pattern: &str, curr_line: usize, backwards: bool) -> (r: Result<
        usize,
        EditError,
    >) {
        let len = self.buffer.len();
        if curr_line > len {
            return Err(EditError::IndexTooBig);
        }
        let regex = match compile(pattern) {
            Ok(regex) => regex,
            Err(_) => {
                return Err(EditError::InvalidRegex);
            },
        };
        if backwards {
            let mut index: usize = curr_line;
            while index > 0
                invariant
                    backwards,
                    pattern_compiles(pattern@),
                    index <= curr_line <= len,
                    len == self.buffer.len(),
                    crate::pattern::multi_line_source(regex) == Some(pattern@),
                    forall|j: int|
                        index <= j < curr_line ==> !self.state().line_matches(pattern@, j),
                decreases index,
            {
                index -= 1;
                if is_match(&regex, self.buffer[index].text.as_str()) {
                    return Ok(index);
                }
            }
        } else if curr_line < len {
            let mut index: usize = curr_line + 1;
            while index < len
                invariant
                    !backwards,
                    pattern_compiles(pattern@),
                    curr_line < index <= len,
                    len == self.buffer.len(),
                    crate::pattern::multi_line_source(regex) == Some(pattern@),
                    forall|j: int|
                        curr_line < j < index ==> !self.state().line_matches(pattern@, j),
                decreases len - index,
            {
                if is_match(&regex, self.buffer[index].text.as_str()) {
                    return Ok(index);
                }
                index += 1;
            }
        }
        Err(EditError::NoMatch)
    }

    fn mark_matching(&mut self, pattern: &str, selection: (usize, usize), inverse: bool) -> (r:
        Result<(), EditError>) {
        check_selection(self.buffer.len(), selection)?;
        let regex = match compile(pattern) {
            Ok(regex) => regex,
            Err(_) => {
                return Err(EditError::InvalidRegex);
            },
        };
        let mut found: Vec<bool> = Vec::new();
        let mut index: usize = selection.0;
        while index <= selection.1
            invariant
                selection.0 <= index <= selection.1 + 1,
                selection.1 < self.buffer.len(),
                crate::pattern::multi_line_source(regex) == Some(pattern@),
                found@.len() == index - selection.0,
                forall|k: int|
                    0 <= k < found@.len() ==> found@[k] == self.state().line_matches(
                        pattern@,
                        selection.0 + k,
                    ),
            decreases selection.1 + 1 - index,
        {
            found.push(is_match(&regex, self.buffer[index].text.as_str()));
            index += 1;
        }
        assert(found@ =~= self.state().matches(
            pattern@,
            selection.0 as int,
            selection.1 as int,
        ));
        self.mark(found.as_slice(), selection, inverse)
    }

    fn get_marked(&mut self) -> (r: Result<Option<usize>, EditError>) {
        let mut index: usize = 0;
        while index < self.buffer.len()
            invariant
                index <= self.buffer.len(),
                *self == *old(self),
                forall|j: int| 0 <= j < index ==> !self.state().lines[j].matched,
            decreases self.buffer.len() - index,
        {
            if self.buffer[index].matched {
                self.buffer[index].matched = false;
                assert(self.state() =~= old(self).state().clear_mark(index as int));
                return Ok(Some(index));
            }
            index += 1;
        }
        Ok(None)
    }

    fn tag_line(&mut self, index: usize, tag: char) -> (r: Result<(), EditError>) {
        if index >= self.buffer.len() {
            return Err(EditError::IndexTooBig);
        }
        self.buffer[index].tag = tag;
        assert(self.state() =~= old(self).state().tag_line(index as int, tag));
        Ok(())
    }

    fn insert(&mut self, data: &[String], index: usize) -> (r: Result<(), EditError>) {
        broadcast use group_states;

        check_index(self.buffer.len(), index)?;
        self.saved = false;
        let mut tail = self.buffer.split_off(index);
        push_fresh(&mut self.buffer, data);
        self.buffer.append(&mut tail);
        assert(self.state() =~= old(self).state().insert(views(data@), index as int));
        Ok(())
    }

    fn cut(&mut self, selection: (usize, usize)) -> (r: Result<(), EditError>) {
        broadcast use group_states;

        check_selection(self.buffer.len(), selection)?;
        self.saved = false;
        let mut tail = self.buffer.split_off(selection.1 + 1);
        self.clipboard = self.buffer.split_off(selection.0);
        self.buffer.append(&mut tail);
        assert(self.state() =~= old(self).state().cut(selection.0 as int, selection.1 as int));
        Ok(())
    }

    fn change(&mut self, data: &[String], selection: (usize, usize)) -> (r: Result<
        (),
        EditError,
    >) {
        broadcast use group_states;

        check_selection(self.buffer.len(), selection)?;
        self.saved = false;
        let mut tail = self.buffer.split_off(selection.1 + 1);
        self.clipboard = self.buffer.split_off(selection.0);
        push_fresh(&mut self.buffer, data);
        self.buffer.append(&mut tail);
        assert(self.state() =~= old(self).state().change(
            views(data@),
            selection.0 as int,
            selection.1 as int,
        ));
        Ok(())
    }

    fn mov(&mut self, selection: (usize, usize), index: usize) -> (r: Result<(), EditError>) {
        check_selection(self.buffer.len(), selection)?;
        check_index(self.buffer.len(), index)?;
        if index <= selection.0 {
            self.move_up(selection, index);
            Ok(())
        } else if index >= selection.1 {
            self.move_down(selection, index);
            Ok(())
        } else {
            Err(EditError::MoveIntoSelf)
        }
    }

    fn mov_copy(&mut self, selection: (usize, usize), index: usize) -> (r: Result<(), EditError>) {
        broadcast use group_states;

        check_selection(self.buffer.len(), selection)?;
        check_index(self.buffer.len(), index)?;
        self.saved = false;
        let mut data: Vec<Line> = Vec::new();
        push_copies(&mut data, &self.buffer, selection.0, selection.1 + 1);
        let at: usize = if index <= selection.0 {
            if index >= 1 {
                index - 1
            } else {
                0
            }
        } else {
            index
        };
        let mut tail = self.buffer.split_off(at);
        self.buffer.append(&mut data);
        self.buffer.append(&mut tail);
        assert(self.state() =~= old(self).state().mov_copy(
            selection.0 as int,
            selection.1 as int,
            index as int,
        ));
        Ok(())
    }

    fn join(&mut self, selection: (usize, usize)) -> (r: Result<(), EditError>) {
        broadcast use group_states;

        check_selection(self.buffer.len(), selection)?;
        self.saved = false;
        let ghost texts = texts_of(old(self).state().selected(selection.0 as int, selection.1 as int));
        let mut tail = self.buffer.split_off(selection.1 + 1);
        let data = self.buffer.split_off(selection.0 + 1);
        let mut first = self.buffer.remove(selection.0);
        assert(texts.subrange(0, 1) =~= seq![first.text@]);
        let mut i: usize = 0;
        while i < data.len()
            invariant
                i <= data.len(),
                data@.len() + 1 == texts.len(),
                forall|j: int| 0 <= j < data@.len() ==> #[trigger] data@[j].text@ == texts[j + 1],
                first.text@ == join_texts(texts.subrange(0, i + 1)),
                first.tag == old(self).buffer@[selection.0 as int].tag,
                first.matched == old(self).buffer@[selection.0 as int].matched,
            decreases data.len() - i,
        {
            pop_char(&mut first.text);
            first.text.append(data[i].text.as_str());
            proof {
                lemma_join_push(texts.subrange(0, i + 1), texts[i + 1]);
                assert(texts.subrange(0, i + 1).push(texts[i + 1]) =~= texts.subrange(0, i + 2));
            }
            i += 1;
        }
        assert(texts.subrange(0, i + 1) =~= texts);
        self.buffer.push(first);
        self.buffer.append(&mut tail);
        assert(self.state() =~= old(self).state().join(selection.0 as int, selection.1 as int));
        Ok(())
    }

    fn copy(&mut self, selection: (usize, usize)) -> (r: Result<(), EditError>) {
        broadcast use group_states;

        check_selection(self.buffer.len(), selection)?;
        self.clipboard = Vec::new();
        push_copies(&mut self.clipboard, &self.buffer, selection.0, selection.1 + 1);
        assert(self.state() =~= old(self).state().copy(selection.0 as int, selection.1 as int));
        Ok(())
    }

    fn paste(&mut self, index: usize) -> (r: Result<usize, EditError>) {
        broadcast use group_states;

        check_index(self.buffer.len(), index)?;
        self.saved = false;
        let mut tail = self.buffer.split_off(index);
        push_copies(&mut self.buffer, &self.clipboard, 0, self.clipboard.len());
        self.buffer.append(&mut tail);
        assert(self.state() =~= old(self).state().paste(index as int));
        Ok(self.clipboard.len())
    }

    fn search_replace(
        &mut self,
        pattern: (&str, &str),
        selection: (usize, usize),
        global: bool,
    ) -> (r: Result<(usize, usize), EditError>) {
        check_selection(self.buffer.len(), selection)?;
        self.saved = false;
        let regex = match compile(pattern.0) {
            Ok(regex) => regex,
            Err(_) => {
                assert(self.state() =~= old(self).state().search_replace(
                    pattern.0@,
                    pattern.1@,
                    selection.0 as int,
                    selection.1 as int,
                    global,
                ));
                return Err(EditError::InvalidRegex);
            },
        };
        let blob = self.blob(selection);
        let after = if global {
            replace_every(&regex, blob.as_str(), pattern.1)
        } else {
            replace_first(&regex, blob.as_str(), pattern.1)
        };
        Ok(self.splice(after.as_str(), selection))
    }

    fn read_from(
        &mut self,
        attempt: Result<Vec<String>, IoFailure>,
        index: Option<usize>,
        must_exist: bool,
    ) -> (r: Result<usize, EditError>) {
        broadcast use group_states;

        if let Some(i) = index {
            check_index(self.buffer.len(), i)?;
        }
        let data = read_file(attempt, must_exist)?;
        let at: usize = match index {
            Some(i) => i,
            None => {
                self.buffer.clear();
                0
            },
        };
        self.saved = false;
        let mut tail = self.buffer.split_off(at);
        push_fresh(&mut self.buffer, data.as_slice());
        self.buffer.append(&mut tail);
        assert(self.state() =~= old(self).state().read(
            crate::buffer::file::read_texts(attempt),
            crate::buffer::opt_index(index),
        ));
        Ok(data.len())
    }

    fn lines_to_write(&self, selection: Option<(usize, usize)>) -> (r: Result<
        Vec<String>,
        EditError,
    >) {
        broadcast use group_states;

        match selection {
            Some(s) => self.get_selection(s),
            None => {
                let texts = copy_texts(&self.buffer, 0, self.buffer.len());
                assert(states(self.buffer@).subrange(0, self.buffer@.len() as int) =~= states(
                    self.buffer@,
                ));
                Ok(texts)
            },
        }
    }

    fn write_to(&mut self, selection: Option<(usize, usize)>, attempt: Result<(), IoFailure>) -> (r:
        Result<(), EditError>) {
        let len = self.buffer.len();
        let mut whole = true;
        if let Some(s) = selection {
            check_selection(len, s)?;
            whole = s.0 == 0 && s.1 == len - 1;
        }
        write_file(attempt)?;
        if whole {
            self.saved = true;
        }
        assert(self.state() =~= old(self).state().written(crate::buffer::opt_span(selection)));
        Ok(())
    }

    fn saved(&self) -> (b: bool) {
        self.saved
    }

    fn get_selection(&self, selection: (usize, usize)) -> (r: Result<Vec<String>, EditError>) {
        broadcast use group_states;

        check_selection(self.buffer.len(), selection)?;
        Ok(copy_texts(&self.buffer, selection.0, selection.1 + 1))
    }
}

impl VecBuffer {
    /// Moves the lines of `selection` in front of line `index`, which is
    /// not after the selection's start.
    fn move_up(&mut self, selection: (usize, usize), index: usize)
        requires
            old(self).state().valid_selection(selection.0 as int, selection.1 as int),
            index <= selection.0,
        ensures
            final(self).state() == old(self).state().mov(
                selection.0 as int,
                selection.1 as int,
                index as int,
            ),
    {
        broadcast use group_states;

        let len = self.buffer.len();
        assert(len == self.state().len());
        let ghost lines = self.buffer@;
        self.saved = false;
        let mut tail = self.buffer.split_off(selection.1 + 1);
        let mut data = self.buffer.split_off(selection.0);
        let mut middle = self.buffer.split_off(index);
        assert(tail@ =~= lines.subrange(selection.1 + 1, len as int));
        assert(data@ =~= lines.subrange(selection.0 as int, selection.1 + 1));
        assert(middle@ =~= lines.subrange(index as int, selection.0 as int));
        assert(self.buffer@ =~= lines.subrange(0, index as int));
        self.buffer.append(&mut data);
        self.buffer.append(&mut middle);
        self.buffer.append(&mut tail);
        assert(self.buffer@ == lines.subrange(0, index as int) + lines.subrange(
            selection.0 as int,
            selection.1 + 1,
        ) + lines.subrange(index as int, selection.0 as int) + lines.subrange(
            selection.1 + 1,
            len as int,
        ));
        assert(self.state().lines =~= old(self).state().mov(
            selection.0 as int,
            selection.1 as int,
            index as int,
        ).lines);
    }

    /// Moves the lines of `selection` in front of line `index`, which is
    /// not before the selection's end.
    fn move_down(&mut self, selection: (usize, usize), index: usize)
        requires
            old(self).state().valid_selection(selection.0 as int, selection.1 as int),
            selection.1 <= index <= old(self).state().len(),
        ensures
            final(self).state() == old(self).state().mov(
                selection.0 as int,
                selection.1 as int,
                index as int,
            ),
    {
        broadcast use group_states;

        let len = self.buffer.len();
        assert(len == self.state().len());
        let ghost lines = self.buffer@;
        let to: usize = if index > selection.1 {
            index
        } else {
            selection.1 + 1
        };
        self.saved = false;
        let mut tail = self.buffer.split_off(to);
        let mut middle = self.buffer.split_off(selection.1 + 1);
        let mut data = self.buffer.split_off(selection.0);
        assert(tail@ =~= lines.subrange(to as int, len as int));
        assert(middle@ =~= lines.subrange(selection.1 + 1, to as int));
        assert(data@ =~= lines.subrange(selection.0 as int, selection.1 + 1));
        assert(self.buffer@ =~= lines.subrange(0, selection.0 as int));
        self.buffer.append(&mut middle);
        self.buffer.append(&mut data);
        self.buffer.append(&mut tail);
        assert(self.buffer@ == lines.subrange(0, selection.0 as int) + lines.subrange(
            selection.1 + 1,
            to as int,
        ) + lines.subrange(selection.0 as int, selection.1 + 1) + lines.subrange(
            to as int,
            len as int,
        ));
        assert(self.state().lines =~= old(self).state().mov(
            selection.0 as int,
            selection.1 as int,
            index as int,
        ).lines);
    }

    /// The texts of the lines of `selection`, one after the other.
    fn blob(&self, selection: (usize, usize)) -> (blob: String)
        requires
            self.state().valid_selection(selection.0 as int, selection.1 as int),
        ensures
            blob@ == self.state().blob(selection.0 as int, selection.1 as int),
    {
        let ghost texts = texts_of(self.state().selected(selection.0 as int, selection.1 as int));
        let mut blob = String::new();
        let mut i: usize = selection.0;
        assert(texts.subrange(0, 0) =~= Seq::<Seq<char>>::empty());
        while i <= selection.1
            invariant
                selection.0 <= i <= selection.1 + 1,
                selection.1 < self.buffer.len(),
                texts == texts_of(self.state().selected(selection.0 as int, selection.1 as int)),
                blob@ == concat(texts.subrange(0, i - selection.0)),
            decreases selection.1 + 1 - i,
        {
            blob.append(self.buffer[i].text.as_str());
            proof {
                let k = i - selection.0;
                lemma_concat_push(texts.subrange(0, k), texts[k]);
                assert(texts.subrange(0, k).push(texts[k]) =~= texts.subrange(0, k + 1));
            }
            i += 1;
        }
        assert(texts.subrange(0, i - selection.0) =~= texts);
        blob
    }

    /// Puts the lines of `replaced` in place of `selection`, taking in the
    /// next line where `replaced` does not end in a newline.
    fn splice(&mut self, replaced: &str, selection: (usize, usize)) -> (s: (usize, usize))
        requires
            old(self).state().valid_selection(selection.0 as int, selection.1 as int),
        ensures
            final(self).state() == old(self).state().substitute(
                replaced@,
                selection.0 as int,
                selection.1 as int,
            ),
            crate::buffer::span(s) == old(self).state().substituted_selection(
                replaced@,
                selection.0 as int,
                selection.1 as int,
            ),
    {
        broadcast use group_states;

        let len = self.buffer.len();
        assert(len == self.state().len());
        self.saved = false;
        let mut tail = self.buffer.split_off(selection.1 + 1);
        self.buffer.truncate(selection.0);
        let mut chars = to_chars(replaced);
        if !(chars.len() > 0 && chars[chars.len() - 1] == '\n') {
            if tail.len() > 0 {
                let next = tail.remove(0);
                let mut more = to_chars(next.text.as_str());
                chars.append(&mut more);
            } else {
                chars.push('\n');
            }
        }
        assert(chars@ =~= old(self).state().completed(replaced@, selection.1 as int));
        let texts = split_framed(&chars);
        push_fresh(&mut self.buffer, texts.as_slice());
        assert(states(self.buffer@).len() == selection.0 + texts@.len());
        let last: usize = if texts.len() == 0 {
            selection.0
        } else {
            self.buffer.len() - 1
        };
        self.buffer.append(&mut tail);
        assert(self.state() =~= old(self).state().substitute(
            replaced@,
            selection.0 as int,
            selection.1 as int,
        ));
        (selection.0, last)
    }

    /// Marks every line of `selection` in which a search found something
    /// (with `inverse`, every one in which it found nothing) and unmarks all
    /// other lines.
    ///
    /// This is the second half of `mark_matching`, for findings that the
    /// caller has at hand: `found` says for each line of the selection, in
    /// order, whether the search found something in it. A line that
    /// `found` does not reach counts as one in which nothing was found.
    ///
    /// Fails with the selection's fault, and then leaves the buffer alone.
    pub fn mark(&mut self, found: &[bool], selection: (usize, usize), inverse: bool) -> (r: Result<
        (),
        EditError,
    >)
        ensures
            r == crate::model::outcome(
                crate::model::selection_fault(
                    old(self).state().len(),
                    selection.0 as int,
                    selection.1 as int,
                ),
            ),
            final(self).state() == if r is Ok {
                old(self).state().mark(found@, selection.0 as int, selection.1 as int, inverse)
            } else {
                old(self).state()
            },
    {
        let len = self.buffer.len();
        check_selection(len, selection)?;
        let mut index: usize = 0;
        while index < len
            invariant
                index <= len,
                len == self.buffer.len(),
                len == old(self).buffer.len(),
                self.saved == old(self).saved,
                self.clipboard == old(self).clipboard,
                forall|j: int|
                    0 <= j < index ==> #[trigger] self.buffer@[j]@ == old(self).state().mark(
                        found@,
                        selection.0 as int,
                        selection.1 as int,
                        inverse,
                    ).lines[j],
                forall|j: int| index <= j < len ==> self.buffer@[j] == old(self).buffer@[j],
            decreases len - index,
        {
            let inside = index >= selection.0 && index <= selection.1;
            let hit = inside && index - selection.0 < found.len() && found[index - selection.0];
            self.buffer[index].matched = inside && (hit != inverse);
            index += 1;
        }
        assert(self.state() =~= old(self).state().mark(
            found@,
            selection.0 as int,
            selection.1 as int,
            inverse,
        ));
        Ok(())
    }

    /// Puts the lines of `replaced` in place of the lines of `selection`.
    ///
    /// This is the second half of `search_replace`, for a replaced text
    /// that the caller has at hand. Where `replaced` does not end in a
    /// newline, the line after the selection is taken in, or a newline is
    /// added if there is no such line. The text is then split into lines,
    /// each ended by one newline, and these take the place of the
    /// selection as fresh lines. Returns the selection that spans them.
    ///
    /// Fails with the selection's fault, and then leaves the buffer alone.
    pub fn substitute(&mut self, replaced: &str, selection: (usize, usize)) -> (r: Result<
        (usize, usize),
        EditError,
    >)
        ensures
            match r {
                Ok(s) => crate::model::selection_fault(
                    old(self).state().len(),
                    selection.0 as int,
                    selection.1 as int,
                ) is None && crate::buffer::span(s) == old(self).state().substituted_selection(
                    replaced@,
                    selection.0 as int,
                    selection.1 as int,
                ),
                Err(e) => crate::model::selection_fault(
                    old(self).state().len(),
                    selection.0 as int,
                    selection.1 as int,
                ) == Some(e),
            },
            final(self).state() == if r is Ok {
                old(self).state().substitute(replaced@, selection.0 as int, selection.1 as int)
            } else {
                old(self).state()
            },
    {
        check_selection(self.buffer.len(), selection)?;
        Ok(self.splice(replaced, selection))
    }
}

} // verus!
