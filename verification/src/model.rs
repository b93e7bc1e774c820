//! The mathematical model of a buffer: what every storage backend stands for,
//! and what each operation does to it.
//!
//! A buffer is a sequence of lines, a clipboard and a saved flag. The saved
//! flag follows the text: it drops whenever an operation that rewrites the
//! sequence of lines succeeds, and only a write of the whole buffer raises
//! it. Tags, match marks and the clipboard never reach a file, so changing
//! them leaves the flag alone.

use crate::error::EditError;
use crate::pattern::{pattern_compiles, pattern_matches, replaced_all, replaced_first};
use crate::text::{concat, join_texts, reframe};
use vstd::prelude::*;

verus! {

/// The tag of a line that carries none.
pub const NO_TAG: char = '\0';

/// One line: its tag, its transient match mark and its text.
pub struct LineState {
    pub tag: char,
    pub matched: bool,
    pub text: Seq<char>,
}

impl LineState {
    /// A line as it enters the buffer: untagged and unmarked.
    pub open spec fn fresh(text: Seq<char>) -> LineState {
        LineState { tag: NO_TAG, matched: false, text }
    }

    /// This line with its match mark set to `matched`.
    pub open spec fn marked(self, matched: bool) -> LineState {
        LineState { matched, ..self }
    }

    /// This line with its tag replaced.
    pub open spec fn tagged(self, tag: char) -> LineState {
        LineState { tag, ..self }
    }

    /// This line with its text replaced.
    pub open spec fn with_text(self, text: Seq<char>) -> LineState {
        LineState { text, ..self }
    }
}

/// Fresh lines holding `texts`, in order.
pub open spec fn fresh_lines(texts: Seq<Seq<char>>) -> Seq<LineState> {
    Seq::new(texts.len(), |i: int| LineState::fresh(texts[i]))
}

/// The texts of `lines`, in order.
pub open spec fn texts_of(lines: Seq<LineState>) -> Seq<Seq<char>> {
    Seq::new(lines.len(), |i: int| lines[i].text)
}

/// The failure, if any, of using `index` as an insertion point among `len`
/// lines: every position up to and including `len` is valid.
pub open spec fn index_fault(len: nat, index: int) -> Option<EditError> {
    if index > len {
        Some(EditError::IndexTooBig)
    } else {
        None
    }
}

/// The failure, if any, of selecting the lines `start..=end` among `len`
/// lines. A selection holds at least two lines, all of which exist.
pub open spec fn selection_fault(len: nat, start: int, end: int) -> Option<EditError> {
    if start >= end {
        Some(EditError::SelectionEmpty)
    } else if end >= len {
        Some(EditError::IndexTooBig)
    } else {
        None
    }
}

/// `Ok(())` when there is no failure, the failure otherwise.
pub open spec fn outcome(fault: Option<EditError>) -> Result<(), EditError> {
    match fault {
        Some(e) => Err(e),
        None => Ok(()),
    }
}

/// The index before `index`, or the top where there is none.
pub open spec fn before(index: int) -> int {
    if index >= 1 {
        index - 1
    } else {
        0
    }
}

/// The first of two failures, if there is any.
pub open spec fn first_fault(a: Option<EditError>, b: Option<EditError>) -> Option<EditError> {
    if a is Some {
        a
    } else {
        b
    }
}

/// The failure, if any, of moving the lines `start..=end` to `index`: the
/// selection is checked first, then the index, then that the index does not
/// lie strictly inside the selection.
pub open spec fn mov_fault(len: nat, start: int, end: int, index: int) -> Option<EditError> {
    first_fault(
        selection_fault(len, start, end),
        first_fault(
            index_fault(len, index),
            if start < index < end {
                Some(EditError::MoveIntoSelf)
            } else {
                None
            },
        ),
    )
}

/// The failure, if any, of copying the lines `start..=end` to `index`: the
/// selection is checked first, then the index.
pub open spec fn mov_copy_fault(len: nat, start: int, end: int, index: int) -> Option<
    EditError,
> {
    first_fault(selection_fault(len, start, end), index_fault(len, index))
}

/// The failure, if any, of using `pattern` on a buffer position that is
/// itself at fault or not: the position is checked first, then the pattern.
pub open spec fn pattern_fault(position: Option<EditError>, pattern: Seq<char>) -> Option<
    EditError,
> {
    first_fault(
        position,
        if pattern_compiles(pattern) {
            None
        } else {
            Some(EditError::InvalidRegex)
        },
    )
}

/// `text` with the first match of `pattern`, or with `global` every match,
/// replaced by `replacement`.
pub open spec fn replaced(
    pattern: Seq<char>,
    text: Seq<char>,
    replacement: Seq<char>,
    global: bool,
) -> Seq<char> {
    if global {
        replaced_all(pattern, text, replacement)
    } else {
        replaced_first(pattern, text, replacement)
    }
}

/// The whole state of a buffer.
#[verifier::ext_equal]
pub struct BufferState {
    pub lines: Seq<LineState>,
    pub clipboard: Seq<LineState>,
    pub saved: bool,
}

impl BufferState {
    /// The state of a new buffer: no lines, an empty clipboard, saved.
    pub open spec fn empty() -> BufferState {
        BufferState { lines: Seq::empty(), clipboard: Seq::empty(), saved: true }
    }

    /// The number of lines.
    pub open spec fn len(self) -> nat {
        self.lines.len()
    }

    /// Whether `index` is an insertion point.
    pub open spec fn valid_index(self, index: int) -> bool {
        0 <= index <= self.len()
    }

    /// Whether `start..=end` is a selection.
    pub open spec fn valid_selection(self, start: int, end: int) -> bool {
        0 <= start < end < self.len()
    }

    /// The lines before `index`.
    pub open spec fn head(self, index: int) -> Seq<LineState> {
        self.lines.subrange(0, index)
    }

    /// The lines from `index` on.
    pub open spec fn tail(self, index: int) -> Seq<LineState> {
        self.lines.subrange(index, self.lines.len() as int)
    }

    /// The lines `start..=end`.
    pub open spec fn selected(self, start: int, end: int) -> Seq<LineState> {
        self.lines.subrange(start, end + 1)
    }

    /// This state with other lines and the saved flag dropped.
    pub open spec fn rewritten(self, lines: Seq<LineState>) -> BufferState {
        BufferState { lines, saved: false, ..self }
    }

    /// This state with other lines and the saved flag untouched.
    pub open spec fn with_lines(self, lines: Seq<LineState>) -> BufferState {
        BufferState { lines, ..self }
    }

    /// The first line tagged `tag` is line `i`.
    pub open spec fn first_tagged(self, tag: char, i: int) -> bool {
        &&& 0 <= i < self.len()
        &&& self.lines[i].tag == tag
        &&& forall|j: int| 0 <= j < i ==> self.lines[j].tag != tag
    }

    /// No line is tagged `tag`.
    pub open spec fn untagged(self, tag: char) -> bool {
        forall|j: int| 0 <= j < self.len() ==> self.lines[j].tag != tag
    }

    /// Whether line `i` matches `pattern`.
    pub open spec fn line_matches(self, pattern: Seq<char>, i: int) -> bool {
        pattern_matches(pattern, self.lines[i].text)
    }

    /// Whether line `j` lies where a search from `from` looks: strictly
    /// after it when searching forwards, strictly before it backwards.
    pub open spec fn searched(self, from: int, backwards: bool, j: int) -> bool {
        if backwards {
            0 <= j < from
        } else {
            from < j < self.len()
        }
    }

    /// Line `i` is the matching line nearest to `from` in the direction of
    /// the search.
    pub open spec fn nearest_match(
        self,
        pattern: Seq<char>,
        from: int,
        backwards: bool,
        i: int,
    ) -> bool {
        &&& self.searched(from, backwards, i)
        &&& self.line_matches(pattern, i)
        &&& forall|j: int|
            self.searched(from, backwards, j) && (if backwards {
                i < j
            } else {
                j < i
            }) ==> !self.line_matches(pattern, j)
    }

    /// No line that a search from `from` looks at matches.
    pub open spec fn no_match(self, pattern: Seq<char>, from: int, backwards: bool) -> bool {
        forall|j: int| self.searched(from, backwards, j) ==> !self.line_matches(pattern, j)
    }

    /// What a search for `pattern` finds in the lines `start..=end`: for
    /// each of them, in order, whether it matches.
    pub open spec fn matches(self, pattern: Seq<char>, start: int, end: int) -> Seq<bool> {
        Seq::new((end - start + 1) as nat, |k: int| self.line_matches(pattern, start + k))
    }

    /// Every line inside `start..=end` marked according to what was found
    /// in it (or, with `inverse`, not found), every other line unmarked.
    /// `found` holds the findings for the lines from `start` on; a line
    /// that it does not reach counts as one in which nothing was found.
    pub open spec fn mark(self, found: Seq<bool>, start: int, end: int, inverse: bool) -> BufferState {
        self.with_lines(
            Seq::new(
                self.lines.len(),
                |i: int|
                    self.lines[i].marked(
                        start <= i <= end && ((i - start < found.len() && found[i - start])
                            != inverse),
                    ),
            ),
        )
    }

    /// Every line inside `start..=end` marked according to whether it
    /// matches `pattern` (or, with `inverse`, does not); every other line
    /// unmarked.
    pub open spec fn mark_matching(
        self,
        pattern: Seq<char>,
        start: int,
        end: int,
        inverse: bool,
    ) -> BufferState {
        self.mark(self.matches(pattern, start, end), start, end, inverse)
    }

    /// The first marked line is line `i`.
    pub open spec fn first_marked(self, i: int) -> bool {
        &&& 0 <= i < self.len()
        &&& self.lines[i].matched
        &&& forall|j: int| 0 <= j < i ==> !self.lines[j].matched
    }

    /// No line is marked.
    pub open spec fn unmarked(self) -> bool {
        forall|j: int| 0 <= j < self.len() ==> !self.lines[j].matched
    }

    /// Line `i` unmarked.
    pub open spec fn clear_mark(self, i: int) -> BufferState {
        self.with_lines(self.lines.update(i, self.lines[i].marked(false)))
    }

    /// Line `index` tagged `tag`.
    pub open spec fn tag_line(self, index: int, tag: char) -> BufferState {
        self.with_lines(self.lines.update(index, self.lines[index].tagged(tag)))
    }

    /// Fresh lines holding `texts` spliced in before line `index`.
    pub open spec fn insert(self, texts: Seq<Seq<char>>, index: int) -> BufferState {
        self.rewritten(self.head(index) + fresh_lines(texts) + self.tail(index))
    }

    /// The lines `start..=end` moved out of the buffer into the clipboard.
    pub open spec fn cut(self, start: int, end: int) -> BufferState {
        BufferState {
            lines: self.head(start) + self.tail(end + 1),
            clipboard: self.selected(start, end),
            saved: false,
        }
    }

    /// The lines `start..=end` moved into the clipboard and fresh lines
    /// holding `texts` put in their place.
    pub open spec fn change(self, texts: Seq<Seq<char>>, start: int, end: int) -> BufferState {
        BufferState {
            lines: self.head(start) + fresh_lines(texts) + self.tail(end + 1),
            clipboard: self.selected(start, end),
            saved: false,
        }
    }

    /// Whether moving `start..=end` to `index` would put the lines inside
    /// themselves.
    pub open spec fn moves_into_self(start: int, end: int, index: int) -> bool {
        start < index < end
    }

    /// The lines `start..=end` taken out and put back in front of what was
    /// line `index`, so that towards the top they begin at `index`.
    ///
    /// For `index == start`, `index == end` and `index == end + 1` that is
    /// where they already are.
    pub open spec fn mov(self, start: int, end: int, index: int) -> BufferState {
        if index <= start {
            self.rewritten(
                self.head(index) + self.selected(start, end) + self.lines.subrange(index, start)
                    + self.tail(end + 1),
            )
        } else {
            let to = if index > end {
                index
            } else {
                end + 1
            };
            self.rewritten(
                self.head(start) + self.lines.subrange(end + 1, to) + self.selected(start, end)
                    + self.tail(to),
            )
        }
    }

    /// Where `mov_copy` puts its copies: at `index`, or, where `index` is
    /// not after the selection's start, one line earlier, so that the copy
    /// ends right before what was line `index`.
    pub open spec fn copy_target(start: int, index: int) -> int {
        if index <= start {
            before(index)
        } else {
            index
        }
    }

    /// Copies of the lines `start..=end` spliced in at
    /// `copy_target(start, index)`, the selected lines left in place.
    pub open spec fn mov_copy(self, start: int, end: int, index: int) -> BufferState {
        let at = Self::copy_target(start, index);
        self.rewritten(self.head(at) + self.selected(start, end) + self.tail(at))
    }

    /// The lines `start..=end` folded into line `start`, which keeps its tag
    /// and mark.
    pub open spec fn join(self, start: int, end: int) -> BufferState {
        self.rewritten(
            self.head(start).push(
                self.lines[start].with_text(join_texts(texts_of(self.selected(start, end)))),
            ) + self.tail(end + 1),
        )
    }

    /// The clipboard replaced by copies of the lines `start..=end`.
    pub open spec fn copy(self, start: int, end: int) -> BufferState {
        BufferState { clipboard: self.selected(start, end), ..self }
    }

    /// Copies of the clipboard's lines spliced in before line `index`.
    pub open spec fn paste(self, index: int) -> BufferState {
        self.rewritten(self.head(index) + self.clipboard + self.tail(index))
    }

    /// The text that a substitution over `start..=end` searches: the
    /// selected lines' texts, one after the other.
    pub open spec fn blob(self, start: int, end: int) -> Seq<char> {
        concat(texts_of(self.selected(start, end)))
    }

    /// Whether a substitution whose replaced text is `replaced` takes in
    /// the line after the selection: it does when `replaced` does not end
    /// in a newline and such a line exists.
    pub open spec fn absorbs_next(self, replaced: Seq<char>, end: int) -> bool {
        !crate::text::ends_with_newline(replaced) && end + 1 < self.len()
    }

    /// The text that a substitution splits into lines: `replaced`, completed
    /// by the next line or, where there is none, by a newline, unless it
    /// ends in a newline already.
    pub open spec fn completed(self, replaced: Seq<char>, end: int) -> Seq<char> {
        if crate::text::ends_with_newline(replaced) {
            replaced
        } else if end + 1 < self.len() {
            replaced + self.lines[end + 1].text
        } else {
            replaced.push('\n')
        }
    }

    /// The texts of the lines that a substitution puts in place of
    /// `start..=end`.
    pub open spec fn replacement_texts(self, replaced: Seq<char>, end: int) -> Seq<Seq<char>> {
        reframe(self.completed(replaced, end))
    }

    /// The lines `start..=end`, and the next line where it is absorbed,
    /// replaced by fresh lines holding `replacement_texts(replaced, end)`.
    pub open spec fn substitute(self, replaced: Seq<char>, start: int, end: int) -> BufferState {
        let rest = if self.absorbs_next(replaced, end) {
            end + 2
        } else {
            end + 1
        };
        self.rewritten(
            self.head(start) + fresh_lines(self.replacement_texts(replaced, end)) + self.tail(
                rest,
            ),
        )
    }

    /// The selection that spans exactly the lines a substitution put in:
    /// from `start` to the last of them (to `start` itself should there be
    /// none).
    pub open spec fn substituted_selection(self, replaced: Seq<char>, start: int, end: int) -> (
        int,
        int,
    ) {
        let n = self.replacement_texts(replaced, end).len();
        if n == 0 {
            (start, start)
        } else {
            (start, start + n - 1)
        }
    }

    /// This state after a search for `pattern` over `start..=end` that
    /// replaces what it finds by `replacement`. A selection at fault leaves
    /// the state alone; a pattern at fault still drops the saved flag.
    pub open spec fn search_replace(
        self,
        pattern: Seq<char>,
        replacement: Seq<char>,
        start: int,
        end: int,
        global: bool,
    ) -> BufferState {
        if selection_fault(self.len(), start, end) is Some {
            self
        } else if !pattern_compiles(pattern) {
            BufferState { saved: false, ..self }
        } else {
            self.substitute(
                replaced(pattern, self.blob(start, end), replacement, global),
                start,
                end,
            )
        }
    }

    /// Fresh lines holding `texts` spliced in before line `index`, or, with
    /// no index, put in place of all lines.
    pub open spec fn read(self, texts: Seq<Seq<char>>, index: Option<int>) -> BufferState {
        match index {
            Some(i) => self.insert(texts, i),
            None => self.rewritten(fresh_lines(texts)),
        }
    }

    /// Whether a write of `selection` covers the whole buffer: it does with
    /// no selection, and with the selection from the first line to the last.
    pub open spec fn covers_all(self, selection: Option<(int, int)>) -> bool {
        match selection {
            None => true,
            Some(s) => s.0 == 0 && s.1 + 1 == self.len(),
        }
    }

    /// The texts that a write of `selection` hands to the file.
    pub open spec fn written_texts(self, selection: Option<(int, int)>) -> Seq<Seq<char>> {
        match selection {
            None => texts_of(self.lines),
            Some(s) => texts_of(self.selected(s.0, s.1)),
        }
    }

    /// This state after a successful write of `selection`.
    pub open spec fn written(self, selection: Option<(int, int)>) -> BufferState {
        BufferState { saved: self.saved || self.covers_all(selection), ..self }
    }
}

} // verus!
