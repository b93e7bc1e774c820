//! Texts as sequences of characters: joining, splitting into lines, and the
//! conversions between `String`, `Vec<char>` and their common view.

use vstd::prelude::*;

verus! {

/// The texts that `strings` hold, in order.
pub open spec fn views(strings: Seq<String>) -> Seq<Seq<char>> {
    Seq::new(strings.len(), |i: int| strings[i]@)
}

/// Whether `text` ends in a newline.
pub open spec fn ends_with_newline(text: Seq<char>) -> bool {
    text.len() > 0 && text.last() == '\n'
}

/// `text` without its last character, if it has one.
pub open spec fn chopped(text: Seq<char>) -> Seq<char> {
    if text.len() > 0 {
        text.drop_last()
    } else {
        text
    }
}

/// All of `texts`, one after the other.
pub open spec fn concat(texts: Seq<Seq<char>>) -> Seq<char>
    decreases texts.len(),
{
    if texts.len() == 0 {
        Seq::empty()
    } else {
        concat(texts.drop_last()) + texts.last()
    }
}

/// `texts` joined into one line: before each text but the first, the last
/// character of what was joined so far is dropped.
pub open spec fn join_texts(texts: Seq<Seq<char>>) -> Seq<char>
    decreases texts.len(),
{
    if texts.len() == 0 {
        Seq::empty()
    } else if texts.len() == 1 {
        texts[0]
    } else {
        chopped(join_texts(texts.drop_last())) + texts.last()
    }
}

/// The position of the first `c` in `text`, or the length of `text` if it
/// holds none.
pub open spec fn find(text: Seq<char>, c: char) -> nat
    decreases text.len(),
{
    if text.len() == 0 || text[0] == c {
        0
    } else {
        1 + find(text.drop_first(), c)
    }
}

/// `piece` without a carriage return at its end.
pub open spec fn without_return(piece: Seq<char>) -> Seq<char> {
    if piece.len() > 0 && piece.last() == '\r' {
        piece.drop_last()
    } else {
        piece
    }
}

/// The lines of `text`, without their line endings. A line ends at a
/// newline; a carriage return right before the newline belongs to the line
/// ending. What follows the last newline is a line too, unless it is empty.
pub open spec fn split_lines(text: Seq<char>) -> Seq<Seq<char>>
    decreases text.len(),
{
    let cut = find(text, '\n');
    if text.len() == 0 {
        Seq::empty()
    } else if cut >= text.len() {
        seq![text]
    } else {
        seq![without_return(text.subrange(0, cut as int))] + split_lines(
            text.subrange(cut as int + 1, text.len() as int),
        )
    }
}

/// The lines of `text`, each ended by a single newline.
pub open spec fn reframe(text: Seq<char>) -> Seq<Seq<char>> {
    Seq::new(split_lines(text).len(), |i: int| split_lines(text)[i].push('\n'))
}

/// `find` returns the first position of `c`: a position `k` that holds `c`
/// or is the end of `text`, with no `c` before it.
pub proof fn lemma_find(text: Seq<char>, c: char, k: int)
    requires
        0 <= k <= text.len(),
        forall|j: int| 0 <= j < k ==> text[j] != c,
        k < text.len() ==> text[k] == c,
    ensures
        find(text, c) == k,
    decreases text.len(),
{
    if text.len() == 0 || text[0] == c {
    } else {
        let rest = text.drop_first();
        assert forall|j: int| 0 <= j < k - 1 implies rest[j] != c by {
            assert(rest[j] == text[j + 1]);
        }
        lemma_find(rest, c, k - 1);
    }
}

/// Before the first `c` there is no `c`, and at it, if it lies inside the
/// text, there is one.
pub proof fn lemma_find_is_first(text: Seq<char>, c: char)
    ensures
        find(text, c) <= text.len(),
        forall|j: int| 0 <= j < find(text, c) ==> text[j] != c,
        find(text, c) < text.len() ==> text[find(text, c) as int] == c,
    decreases text.len(),
{
    if text.len() == 0 || text[0] == c {
    } else {
        let rest = text.drop_first();
        lemma_find_is_first(rest, c);
        assert forall|j: int| 0 <= j < find(text, c) implies text[j] != c by {
            if j > 0 {
                assert(text[j] == rest[j - 1]);
            }
        }
        if find(text, c) < text.len() {
            assert(text[find(text, c) as int] == rest[find(rest, c) as int]);
        }
    }
}

/// No line of a text holds a newline.
pub proof fn lemma_split_lines_hold_no_newline(text: Seq<char>)
    ensures
        forall|i: int, j: int|
            0 <= i < split_lines(text).len() && 0 <= j < split_lines(text)[i].len()
                ==> split_lines(text)[i][j] != '\n',
    decreases text.len(),
{
    let cut = find(text, '\n');
    lemma_find_is_first(text, '\n');
    if text.len() == 0 {
    } else if cut >= text.len() {
    } else {
        let first = without_return(text.subrange(0, cut as int));
        let rest = text.subrange(cut as int + 1, text.len() as int);
        lemma_split_lines_hold_no_newline(rest);
        assert forall|i: int, j: int|
            0 <= i < split_lines(text).len() && 0 <= j < split_lines(text)[i].len() implies split_lines(
            text,
        )[i][j] != '\n' by {
            if i == 0 {
                assert(split_lines(text)[0] == first);
                assert(first[j] == text[j]);
            } else {
                assert(split_lines(text)[i] == split_lines(rest)[i - 1]);
            }
        }
    }
}

/// Concatenation grows by one text at the end.
pub proof fn lemma_concat_push(texts: Seq<Seq<char>>, text: Seq<char>)
    ensures
        concat(texts.push(text)) == concat(texts) + text,
{
    assert(texts.push(text).drop_last() =~= texts);
}

/// Joining grows by one text at the end.
pub proof fn lemma_join_push(texts: Seq<Seq<char>>, text: Seq<char>)
    requires
        texts.len() > 0,
    ensures
        join_texts(texts.push(text)) == chopped(join_texts(texts)) + text,
{
    assert(texts.push(text).drop_last() =~= texts);
}

/// `String::push`.
///
/// Trusted: the character is appended at the end.
#[verifier::external_body]
pub(crate) fn push_char(s: &mut String, c: char)
    ensures
        final(s)@ == old(s)@.push(c),
{
    s.push(c)
}

/// `String::pop`.
///
/// Trusted: the last character is removed and returned; an empty string is
/// left as it is and yields `None`.
#[verifier::external_body]
pub(crate) fn pop_char(s: &mut String) -> (c: Option<char>)
    ensures
        final(s)@ == chopped(old(s)@),
        c == if old(s)@.len() > 0 {
            Some(old(s)@.last())
        } else {
            None
        },
{
    s.pop()
}

/// The characters of `s`, in order.
pub fn to_chars(s: &str) -> (chars: Vec<char>)
    ensures
        chars@ == s@,
{
    let mut chars: Vec<char> = Vec::new();
    for c in iter: s.chars()
        invariant
            iter.seq() == s@,
            chars@ == s@.take(iter.index()),
    {
        chars.push(c);
    }
    assert(chars@ =~= s@);
    chars
}

/// The characters `chars[from..to]` as a string.
pub fn from_chars(chars: &Vec<char>, from: usize, to: usize) -> (s: String)
    requires
        from <= to <= chars.len(),
    ensures
        s@ == chars@.subrange(from as int, to as int),
{
    let mut s = String::new();
    let mut i: usize = from;
    while i < to
        invariant
            from <= i <= to <= chars.len(),
            s@ == chars@.subrange(from as int, i as int),
        decreases to - i,
    {
        push_char(&mut s, chars[i]);
        i += 1;
        assert(s@ =~= chars@.subrange(from as int, i as int));
    }
    s
}

/// Splits `chars` into its lines and ends each with a single newline.
pub fn split_framed(chars: &Vec<char>) -> (lines: Vec<String>)
    ensures
        views(lines@) == reframe(chars@),
{
    let n = chars.len();
    let mut lines: Vec<String> = Vec::new();
    let mut pos: usize = 0;
    assert(chars@.subrange(0, n as int) =~= chars@);
    while pos < n
        invariant
            n == chars.len(),
            pos <= n,
            lines@.len() + split_lines(chars@.subrange(pos as int, n as int)).len()
                == split_lines(chars@).len(),
            forall|i: int|
                0 <= i < lines@.len() ==> #[trigger] lines@[i]@ == split_lines(chars@)[i].push('\n'),
            forall|i: int|
                0 <= i < split_lines(chars@.subrange(pos as int, n as int)).len()
                    ==> #[trigger] split_lines(chars@.subrange(pos as int, n as int))[i]
                    == split_lines(chars@)[lines@.len() + i],
        decreases n - pos,
    {
        let ghost rest = chars@.subrange(pos as int, n as int);
        let mut cut: usize = pos;
        while cut < n && chars[cut] != '\n'
            invariant
                n == chars.len(),
                pos <= cut <= n,
                forall|j: int| pos <= j < cut ==> chars@[j] != '\n',
            decreases n - cut,
        {
            cut += 1;
        }
        proof {
            lemma_find(rest, '\n', cut - pos);
        }
        let stop = if cut < n && cut > pos && chars[cut - 1] == '\r' {
            cut - 1
        } else {
            cut
        };
        let mut line = from_chars(chars, pos, stop);
        push_char(&mut line, '\n');
        let ghost piece = if cut < n {
            without_return(rest.subrange(0, cut - pos))
        } else {
            rest
        };
        let next: usize = if cut < n {
            cut + 1
        } else {
            n
        };
        proof {
            assert(chars@.subrange(pos as int, stop as int) =~= piece);
            let after = chars@.subrange(next as int, n as int);
            if cut < n {
                assert(rest.subrange(cut - pos + 1, rest.len() as int) =~= after);
            } else {
                assert(after =~= Seq::<char>::empty());
                assert(split_lines(after) =~= Seq::<Seq<char>>::empty());
            }
            assert(split_lines(rest) =~= seq![piece] + split_lines(after));
            assert(split_lines(rest)[0] == piece);
            assert forall|i: int| 0 <= i < split_lines(after).len() implies #[trigger] split_lines(
                after,
            )[i] == split_lines(chars@)[lines@.len() + 1 + i] by {
                assert(split_lines(after)[i] == split_lines(rest)[i + 1]);
            }
        }
        lines.push(line);
        pos = next;
    }
    proof {
        assert(chars@.subrange(n as int, n as int) =~= Seq::<char>::empty());
        assert(views(lines@) =~= reframe(chars@));
    }
    lines
}

} // verus!
