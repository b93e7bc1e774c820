//! Laws that relate the buffer's operations to one another, proved over the
//! model that the operations' contracts are written in.

use crate::error::EditError;
use crate::model::{index_fault, mov_fault, selection_fault, texts_of, BufferState};
use crate::text::{chopped, ends_with_newline, join_texts};
use vstd::prelude::*;

verus! {

/// Inserted lines can be read back: after inserting at least two texts at a
/// valid index, the selection that spans them is valid and holds exactly
/// those texts. (A selection spans at least two lines, so fewer texts
/// cannot be selected on their own.)
pub proof fn law_insert_then_select(s: BufferState, texts: Seq<Seq<char>>, index: int)
    requires
        s.valid_index(index),
        texts.len() >= 2,
    ensures
        selection_fault(s.insert(texts, index).len(), index, index + texts.len() - 1) is None,
        texts_of(s.insert(texts, index).selected(index, index + texts.len() - 1)) == texts,
{
    let after = s.insert(texts, index);
    assert(texts_of(after.selected(index, index + texts.len() - 1)) =~= texts);
}

/// Cutting a selection and pasting at its start restores the lines, with
/// their texts, tags and marks: the paste is accepted and the buffer holds
/// what it held before the cut.
pub proof fn law_cut_then_paste(s: BufferState, start: int, end: int)
    requires
        s.valid_selection(start, end),
    ensures
        index_fault(s.cut(start, end).len(), start) is None,
        s.cut(start, end).paste(start).lines == s.lines,
{
    assert(s.cut(start, end).paste(start).lines =~= s.lines);
}

/// Changing a selection is cutting it and then inserting at its start, in
/// one step.
pub proof fn law_change_is_cut_then_insert(
    s: BufferState,
    texts: Seq<Seq<char>>,
    start: int,
    end: int,
)
    requires
        s.valid_selection(start, end),
    ensures
        index_fault(s.cut(start, end).len(), start) is None,
        s.change(texts, start, end) == s.cut(start, end).insert(texts, start),
{
    assert(s.change(texts, start, end).lines =~= s.cut(start, end).insert(texts, start).lines);
}

/// Marked lines are handed out in ascending order: once the first marked
/// line has lost its mark, the next first marked line lies after it.
pub proof fn law_marks_drain_upwards(s: BufferState, first: int, next: int)
    requires
        s.first_marked(first),
        s.clear_mark(first).first_marked(next),
    ensures
        first < next,
        s.lines[next].matched,
{
    let after = s.clear_mark(first);
    assert(!after.lines[first].matched);
    if next < first {
        assert(after.lines[next] == s.lines[next]);
    }
    assert(after.lines[next] == s.lines[next]);
}

/// Every paste after a copy inserts the copied lines, and none of them
/// changes the clipboard.
pub proof fn law_paste_repeats(s: BufferState, start: int, end: int, first: int, second: int)
    requires
        s.valid_selection(start, end),
        s.valid_index(first),
        s.copy(start, end).paste(first).valid_index(second),
    ensures
        ({
            let copied = s.copy(start, end);
            let once = copied.paste(first);
            let twice = once.paste(second);
            let n = end - start + 1;
            &&& copied.clipboard == s.selected(start, end)
            &&& once.clipboard == copied.clipboard
            &&& twice.clipboard == copied.clipboard
            &&& once.lines.subrange(first, first + n) == copied.clipboard
            &&& twice.lines.subrange(second, second + n) == copied.clipboard
        }),
{
    let copied = s.copy(start, end);
    let once = copied.paste(first);
    let twice = once.paste(second);
    let n = end - start + 1;
    assert(once.lines.subrange(first, first + n) =~= copied.clipboard);
    assert(twice.lines.subrange(second, second + n) =~= copied.clipboard);
}

/// A buffer without lines has no valid selection: whatever the start and
/// the end, checking the selection reports a fault.
pub proof fn law_empty_buffer_has_no_selection(s: BufferState, start: nat, end: nat)
    requires
        s.len() == 0,
    ensures
        selection_fault(s.len(), start as int, end as int) is Some,
        !s.valid_selection(start as int, end as int),
{
}

/// A move to an index strictly inside the selection fails with
/// `MoveIntoSelf`; a move to the selection's start or to its end succeeds
/// and leaves every line where it is.
pub proof fn law_move_boundaries(s: BufferState, start: int, end: int, index: int)
    requires
        s.valid_selection(start, end),
    ensures
        start < index < end ==> mov_fault(s.len(), start, end, index) == Some(
            EditError::MoveIntoSelf,
        ),
        index == start || index == end ==> mov_fault(s.len(), start, end, index) is None,
        index == start || index == end ==> s.mov(start, end, index).lines == s.lines,
{
    if index == start || index == end {
        assert(s.mov(start, end, index).lines =~= s.lines);
    }
}

/// A tag can be found once it is given: after line `index` got the tag
/// `tag`, some line carries it, the first such line is not after `index`,
/// and it is `index` itself unless an earlier line carries the tag too.
pub proof fn law_tag_then_find(s: BufferState, index: int, tag: char)
    requires
        0 <= index < s.len(),
    ensures
        !s.tag_line(index, tag).untagged(tag),
        forall|i: int| s.tag_line(index, tag).first_tagged(tag, i) ==> i <= index,
        (forall|j: int| 0 <= j < index ==> s.lines[j].tag != tag) ==> s.tag_line(
            index,
            tag,
        ).first_tagged(tag, index),
{
    let after = s.tag_line(index, tag);
    assert(after.lines[index].tag == tag);
    if forall|j: int| 0 <= j < index ==> s.lines[j].tag != tag {
        assert forall|j: int| 0 <= j < index implies after.lines[j].tag != tag by {
            assert(after.lines[j] == s.lines[j]);
        }
    }
}

/// Whether every text ends in a newline.
pub open spec fn framed(texts: Seq<Seq<char>>) -> bool {
    forall|i: int| 0 <= i < texts.len() ==> ends_with_newline(#[trigger] texts[i])
}

/// All texts one after the other, each without its final character.
pub open spec fn concat_chopped(texts: Seq<Seq<char>>) -> Seq<char>
    decreases texts.len(),
{
    if texts.len() == 0 {
        Seq::empty()
    } else {
        concat_chopped(texts.drop_last()) + chopped(texts.last())
    }
}

/// Joining texts that each hold at least one character puts them one after
/// the other, each but the last without its final character.
pub proof fn lemma_join_chops_each(texts: Seq<Seq<char>>)
    requires
        texts.len() >= 1,
        forall|i: int| 0 <= i < texts.len() ==> (#[trigger] texts[i]).len() > 0,
    ensures
        join_texts(texts) == concat_chopped(texts.drop_last()) + texts.last(),
    decreases texts.len(),
{
    if texts.len() == 1 {
        assert(texts.drop_last() =~= Seq::<Seq<char>>::empty());
        assert(join_texts(texts) =~= concat_chopped(texts.drop_last()) + texts.last());
    } else {
        let shorter = texts.drop_last();
        assert forall|i: int| 0 <= i < shorter.len() implies (#[trigger] shorter[i]).len() > 0 by {
            assert(shorter[i] == texts[i]);
        }
        lemma_join_chops_each(shorter);
        let joined = concat_chopped(shorter.drop_last()) + shorter.last();
        assert(shorter.last().len() > 0);
        assert(chopped(joined) =~= concat_chopped(shorter.drop_last()) + chopped(shorter.last()));
    }
}

/// Joining a selection whose lines all end in a newline leaves one line in
/// its place: the lines before and after it stay, and the line's text is
/// the selected texts one after the other, with every newline but the last
/// text's removed.
pub proof fn law_join(s: BufferState, start: int, end: int)
    requires
        s.valid_selection(start, end),
        framed(texts_of(s.selected(start, end))),
    ensures
        ({
            let texts = texts_of(s.selected(start, end));
            let joined = s.join(start, end);
            &&& joined.len() == s.len() - (end - start)
            &&& joined.head(start) == s.head(start)
            &&& joined.tail(start + 1) == s.tail(end + 1)
            &&& joined.lines[start].text == concat_chopped(texts.drop_last()) + texts.last()
            &&& ends_with_newline(joined.lines[start].text)
        }),
{
    let texts = texts_of(s.selected(start, end));
    let joined = s.join(start, end);
    assert forall|i: int| 0 <= i < texts.len() implies (#[trigger] texts[i]).len() > 0 by {
        assert(ends_with_newline(texts[i]));
    }
    lemma_join_chops_each(texts);
    assert(joined.head(start) =~= s.head(start));
    assert(joined.tail(start + 1) =~= s.tail(end + 1));
    assert(ends_with_newline(texts.last()));
}

/// Whether every line of the buffer and of the clipboard ends in a newline.
pub open spec fn well_framed(s: BufferState) -> bool {
    framed(texts_of(s.lines)) && framed(texts_of(s.clipboard))
}

/// The saved flag follows the text. Every operation that rewrites the lines
/// drops it, whatever it rewrites; tagging, marking and copying leave it as
/// it is; a write raises it if it covers the whole buffer and leaves it as
/// it is otherwise.
pub proof fn law_saved_flag(
    s: BufferState,
    texts: Seq<Seq<char>>,
    replaced: Seq<char>,
    found: Seq<bool>,
    tag: char,
    inverse: bool,
    start: int,
    end: int,
    index: int,
    selection: Option<(int, int)>,
)
    ensures
        !s.insert(texts, index).saved,
        !s.cut(start, end).saved,
        !s.change(texts, start, end).saved,
        !s.mov(start, end, index).saved,
        !s.mov_copy(start, end, index).saved,
        !s.join(start, end).saved,
        !s.paste(index).saved,
        !s.substitute(replaced, start, end).saved,
        !s.read(texts, Some(index)).saved,
        !s.read(texts, None).saved,
        s.copy(start, end).saved == s.saved,
        s.tag_line(index, tag).saved == s.saved,
        s.mark(found, start, end, inverse).saved == s.saved,
        s.clear_mark(index).saved == s.saved,
        s.written(selection).saved == (s.saved || s.covers_all(selection)),
        s.written(None).saved,
        s.len() > 0 ==> s.written(Some((0, s.len() - 1))).saved,
{
}

/// Lines keep their newlines. In a buffer whose lines all end in a newline,
/// inserting such lines, cutting, changing, moving, copying, pasting and
/// joining leave only lines that end in a newline, in the buffer and in the
/// clipboard.
pub proof fn law_framing_kept(
    s: BufferState,
    texts: Seq<Seq<char>>,
    start: int,
    end: int,
    index: int,
)
    requires
        well_framed(s),
        framed(texts),
        s.valid_selection(start, end),
        s.valid_index(index),
    ensures
        well_framed(s.insert(texts, index)),
        well_framed(s.cut(start, end)),
        well_framed(s.change(texts, start, end)),
        !BufferState::moves_into_self(start, end, index) ==> well_framed(
            s.mov(start, end, index),
        ),
        well_framed(s.mov_copy(start, end, index)),
        well_framed(s.join(start, end)),
        well_framed(s.copy(start, end)),
        well_framed(s.paste(index)),
{
    let all = texts_of(s.lines);
    let clip = texts_of(s.clipboard);
    assert forall|i: int| 0 <= i < s.lines.len() implies ends_with_newline(
        #[trigger] s.lines[i].text,
    ) by {
        assert(all[i] == s.lines[i].text);
    }
    assert forall|i: int| 0 <= i < s.clipboard.len() implies ends_with_newline(
        #[trigger] s.clipboard[i].text,
    ) by {
        assert(clip[i] == s.clipboard[i].text);
    }
    assert forall|i: int| 0 <= i < texts.len() implies ends_with_newline(
        #[trigger] crate::model::fresh_lines(texts)[i].text,
    ) by {
        assert(ends_with_newline(texts[i]));
    }
    assert(framed(texts_of(s.selected(start, end)))) by {
        let chosen = texts_of(s.selected(start, end));
        assert forall|i: int| 0 <= i < chosen.len() implies ends_with_newline(
            #[trigger] chosen[i],
        ) by {
            assert(chosen[i] == s.lines[start + i].text);
        }
    }
    law_join(s, start, end);
    lemma_lines_framed(s.insert(texts, index).lines);
    lemma_lines_framed(s.cut(start, end).lines);
    lemma_lines_framed(s.cut(start, end).clipboard);
    lemma_lines_framed(s.change(texts, start, end).lines);
    if !BufferState::moves_into_self(start, end, index) {
        lemma_lines_framed(s.mov(start, end, index).lines);
    }
    lemma_lines_framed(s.mov_copy(start, end, index).lines);
    lemma_lines_framed(s.join(start, end).lines);
    lemma_lines_framed(s.paste(index).lines);
    lemma_lines_framed(s.lines);
    lemma_lines_framed(s.clipboard);
}

/// Lines that each end in a newline have framed texts.
proof fn lemma_lines_framed(lines: Seq<crate::model::LineState>)
    requires
        forall|i: int| 0 <= i < lines.len() ==> ends_with_newline(#[trigger] lines[i].text),
    ensures
        framed(texts_of(lines)),
{
    let texts = texts_of(lines);
    assert forall|i: int| 0 <= i < texts.len() implies ends_with_newline(#[trigger] texts[i]) by {
        assert(texts[i] == lines[i].text);
    }
}

/// A substitution puts in only lines that end in a newline, none of which
/// holds another newline, whatever text it is given.
pub proof fn law_substitute_frames(s: BufferState, replaced: Seq<char>, end: int)
    ensures
        framed(s.replacement_texts(replaced, end)),
        forall|i: int, j: int|
            0 <= i < s.replacement_texts(replaced, end).len() && 0 <= j < s.replacement_texts(
                replaced,
                end,
            )[i].len() - 1 ==> s.replacement_texts(replaced, end)[i][j] != '\n',
{
    let text = s.completed(replaced, end);
    let made = s.replacement_texts(replaced, end);
    assert forall|i: int| 0 <= i < made.len() implies ends_with_newline(#[trigger] made[i]) by {
        assert(made[i] == crate::text::split_lines(text)[i].push('\n'));
    }
    crate::text::lemma_split_lines_hold_no_newline(text);
    assert forall|i: int, j: int| 0 <= i < made.len() && 0 <= j < made[i].len() - 1 implies made[i][j]
        != '\n' by {
        assert(made[i] == crate::text::split_lines(text)[i].push('\n'));
        assert(made[i][j] == crate::text::split_lines(text)[i][j]);
    }
}

} // verus!
