//! Splitting an argument such as `/pattern/replacement/` into its
//! expressions.
//!
//! The first character of the input is the separator. What follows is cut
//! at each separator into chunks. A chunk that ends in an odd number of
//! backslashes escapes the separator after it: its last backslash is
//! dropped, the separator is kept, and the expression goes on with the next
//! chunk. Backslashes are not otherwise interpreted.

use crate::error::EditError;
use crate::text::{find, from_chars, lemma_find, to_chars, views};
use vstd::prelude::*;

verus! {

/// The number of backslashes at the end of `chunk`.
pub open spec fn trailing_backslashes(chunk: Seq<char>) -> nat
    decreases chunk.len(),
{
    if chunk.len() == 0 || chunk.last() != '\\' {
        0
    } else {
        1 + trailing_backslashes(chunk.drop_last())
    }
}

/// Whether `chunk` escapes the separator after it.
pub open spec fn escapes(chunk: Seq<char>) -> bool {
    trailing_backslashes(chunk) % 2 == 1
}

/// What `chunk` adds to the expression it belongs to: itself, or, where it
/// escapes the separator, itself with the separator in place of its last
/// backslash.
pub open spec fn contribution(chunk: Seq<char>, separator: char) -> Seq<char> {
    if escapes(chunk) {
        chunk.drop_last().push(separator)
    } else {
        chunk
    }
}

/// The expressions in `rest`, the text after some separator, where
/// `pending` is what earlier chunks added to the first of them. `None` if
/// the last chunk escapes a separator that is not there.
pub open spec fn expressions_from(rest: Seq<char>, separator: char, pending: Seq<char>) -> Option<
    Seq<Seq<char>>,
>
    decreases rest.len(),
{
    let cut = find(rest, separator);
    let chunk = rest.subrange(0, cut as int);
    let expression = pending + contribution(chunk, separator);
    if cut >= rest.len() {
        if escapes(chunk) {
            None
        } else {
            Some(seq![expression])
        }
    } else {
        let after = rest.subrange(cut as int + 1, rest.len() as int);
        if escapes(chunk) {
            expressions_from(after, separator, expression)
        } else {
            match expressions_from(after, separator, Seq::empty()) {
                Some(more) => Some(seq![expression] + more),
                None => None,
            }
        }
    }
}

/// The expressions in `input`: none for an empty input, else those after
/// its first character, which is the separator.
pub open spec fn expressions(input: Seq<char>) -> Option<Seq<Seq<char>>> {
    if input.len() == 0 {
        Some(Seq::empty())
    } else {
        expressions_from(input.subrange(1, input.len() as int), input[0], Seq::empty())
    }
}

/// `found` followed by what `rest` holds, where `rest` holds anything.
pub open spec fn continued(found: Seq<Seq<char>>, rest: Option<Seq<Seq<char>>>) -> Option<
    Seq<Seq<char>>,
> {
    match rest {
        Some(more) => Some(found + more),
        None => None,
    }
}

/// Counting backwards from the end of `chunk`, `k` backslashes and then
/// either the start of the chunk or another character make `k` trailing
/// backslashes.
proof fn lemma_trailing_backslashes(chunk: Seq<char>, k: int)
    requires
        0 <= k <= chunk.len(),
        forall|j: int| chunk.len() - k <= j < chunk.len() ==> chunk[j] == '\\',
        k < chunk.len() ==> chunk[chunk.len() - k - 1] != '\\',
    ensures
        trailing_backslashes(chunk) == k,
    decreases chunk.len(),
{
    if k > 0 {
        let shorter = chunk.drop_last();
        assert forall|j: int| shorter.len() - (k - 1) <= j < shorter.len() implies shorter[j]
            == '\\' by {
            assert(shorter[j] == chunk[j]);
        }
        lemma_trailing_backslashes(shorter, k - 1);
    }
}

/// What stands before a character that is no backslash does not count
/// towards the backslashes at the end.
proof fn lemma_trailing_backslashes_stop(before: Seq<char>, c: char, after: Seq<char>)
    requires
        c != '\\',
    ensures
        trailing_backslashes(before.push(c) + after) == trailing_backslashes(after),
    decreases after.len(),
{
    let whole = before.push(c) + after;
    if after.len() == 0 {
        assert(whole =~= before.push(c));
    } else {
        assert(whole.last() == after.last());
        assert(whole.drop_last() =~= before.push(c) + after.drop_last());
        if after.last() == '\\' {
            lemma_trailing_backslashes_stop(before, c, after.drop_last());
        }
    }
}

/// A text without backslashes ends in none.
proof fn lemma_no_backslash_none_trailing(chunk: Seq<char>)
    requires
        forall|j: int| 0 <= j < chunk.len() ==> chunk[j] != '\\',
    ensures
        trailing_backslashes(chunk) == 0,
{
}

/// After a separator that is no backslash, the expressions fail exactly
/// when the text ends in an odd number of backslashes; after a backslash
/// as separator they never fail.
proof fn lemma_expressions_from_fail(rest: Seq<char>, separator: char, pending: Seq<char>)
    ensures
        expressions_from(rest, separator, pending) is None <==> separator != '\\'
            && trailing_backslashes(rest) % 2 == 1,
    decreases rest.len(),
{
    let cut = find(rest, separator);
    crate::text::lemma_find_is_first(rest, separator);
    let chunk = rest.subrange(0, cut as int);
    if separator == '\\' {
        lemma_no_backslash_none_trailing(chunk);
    }
    if cut >= rest.len() {
        assert(chunk =~= rest);
    } else {
        let after = rest.subrange(cut as int + 1, rest.len() as int);
        let expression = pending + contribution(chunk, separator);
        if escapes(chunk) {
            lemma_expressions_from_fail(after, separator, expression);
        } else {
            lemma_expressions_from_fail(after, separator, Seq::empty());
        }
        if separator != '\\' {
            assert(rest =~= chunk.push(separator) + after);
            lemma_trailing_backslashes_stop(chunk, separator, after);
        }
    }
}

/// Success is owed to every input that does not end in an escape: the
/// expressions of `input` fail exactly when its separator is no backslash
/// and an odd number of backslashes ends it.
pub proof fn law_fails_on_trailing_escape(input: Seq<char>)
    ensures
        expressions(input) is None <==> input.len() > 0 && input[0] != '\\'
            && trailing_backslashes(input.subrange(1, input.len() as int)) % 2 == 1,
{
    if input.len() > 0 {
        lemma_expressions_from_fail(
            input.subrange(1, input.len() as int),
            input[0],
            Seq::empty(),
        );
    }
}

/// The chunks of `rest`: what stands between its separators, before the
/// first and after the last.
pub open spec fn chunks(rest: Seq<char>, separator: char) -> Seq<Seq<char>>
    decreases rest.len(),
{
    let cut = find(rest, separator);
    if cut >= rest.len() {
        seq![rest]
    } else {
        seq![rest.subrange(0, cut as int)] + chunks(
            rest.subrange(cut as int + 1, rest.len() as int),
            separator,
        )
    }
}

/// Where `rest` holds no backslash, its expressions are its chunks.
proof fn lemma_plain_expressions(rest: Seq<char>, separator: char)
    requires
        forall|j: int| 0 <= j < rest.len() ==> rest[j] != '\\',
    ensures
        expressions_from(rest, separator, Seq::empty()) == Some(chunks(rest, separator)),
    decreases rest.len(),
{
    let cut = find(rest, separator);
    crate::text::lemma_find_is_first(rest, separator);
    let chunk = rest.subrange(0, cut as int);
    lemma_no_backslash_none_trailing(chunk);
    assert(Seq::<char>::empty() + chunk =~= chunk);
    if cut >= rest.len() {
        assert(chunk =~= rest);
    } else {
        lemma_plain_expressions(rest.subrange(cut as int + 1, rest.len() as int), separator);
    }
}

/// Without backslashes there is nothing to escape: the expressions of such
/// an input are the chunks between its separators.
pub proof fn law_plain_input_splits_at_every_separator(input: Seq<char>)
    requires
        input.len() > 0,
        forall|j: int| 0 <= j < input.len() ==> input[j] != '\\',
    ensures
        expressions(input) == Some(chunks(input.subrange(1, input.len() as int), input[0])),
{
    lemma_plain_expressions(input.subrange(1, input.len() as int), input[0]);
}

/// Splits `input` into the expressions that its first character separates.
///
/// A separator after an odd number of backslashes does not split: the last
/// of these backslashes is dropped and the separator becomes part of the
/// expression. An empty input holds no expressions. Fails with
/// `EscapedLastExpression` if the input ends in such a backslash.
pub fn parse_expressions(input: &str) -> (r: Result<Vec<String>, EditError>)
    ensures
        match r {
            Ok(found) => expressions(input@) == Some(views(found@)),
            Err(e) => e == EditError::EscapedLastExpression && expressions(input@) is None,
        },
{
    let chars = to_chars(input);
    let n = chars.len();
    let mut found: Vec<String> = Vec::new();
    if n == 0 {
        assert(views(found@) =~= Seq::<Seq<char>>::empty());
        return Ok(found);
    }
    let separator = chars[0];
    let mut pending: Vec<char> = Vec::new();
    let mut pos: usize = 1;
    assert(views(found@) + Seq::<Seq<char>>::empty() =~= Seq::<Seq<char>>::empty());
    loop
        invariant
            n == chars.len(),
            chars@ == input@,
            n > 0,
            separator == chars@[0],
            1 <= pos <= n,
            expressions(input@) == continued(
                views(found@),
                expressions_from(chars@.subrange(pos as int, n as int), separator, pending@),
            ),
        decreases n - pos,
    {
        let ghost rest = chars@.subrange(pos as int, n as int);
        let mut cut: usize = pos;
        while cut < n && chars[cut] != separator
            invariant
                n == chars.len(),
                pos <= cut <= n,
                forall|j: int| pos <= j < cut ==> chars@[j] != separator,
            decreases n - cut,
        {
            cut += 1;
        }
        let ghost chunk = rest.subrange(0, cut - pos);
        let mut slashes: usize = 0;
        while slashes < cut - pos && chars[cut - 1 - slashes] == '\\'
            invariant
                n == chars.len(),
                pos <= cut <= n,
                slashes <= cut - pos,
                forall|j: int| cut - slashes <= j < cut ==> chars@[j] == '\\',
            decreases cut - pos - slashes,
        {
            slashes += 1;
        }
        proof {
            lemma_find(rest, separator, cut - pos);
            assert(chunk =~= chars@.subrange(pos as int, cut as int));
            lemma_trailing_backslashes(chunk, slashes as int);
        }
        let escaped = slashes % 2 == 1;
        let stop: usize = if escaped {
            cut - 1
        } else {
            cut
        };
        let ghost before = pending@;
        let mut i: usize = pos;
        while i < stop
            invariant
                n == chars.len(),
                pos <= i <= stop <= n,
                pending@ == before + chars@.subrange(pos as int, i as int),
            decreases stop - i,
        {
            pending.push(chars[i]);
            i += 1;
            assert(pending@ =~= before + chars@.subrange(pos as int, i as int));
        }
        if escaped {
            pending.push(separator);
        }
        assert(pending@ =~= before + contribution(chunk, separator));
        if cut == n {
            if escaped {
                return Err(EditError::EscapedLastExpression);
            }
            let expression = from_chars(&pending, 0, pending.len());
            let ghost earlier = found@;
            found.push(expression);
            proof {
                assert(pending@.subrange(0, pending@.len() as int) =~= pending@);
                assert(views(found@) =~= views(earlier) + seq![pending@]);
            }
            return Ok(found);
        }
        let ghost after = rest.subrange(cut - pos + 1, rest.len() as int);
        assert(after =~= chars@.subrange(cut + 1, n as int));
        if !escaped {
            let expression = from_chars(&pending, 0, pending.len());
            let ghost earlier = found@;
            found.push(expression);
            proof {
                assert(pending@.subrange(0, pending@.len() as int) =~= pending@);
                assert(views(found@) =~= views(earlier) + seq![pending@]);
                let more = expressions_from(after, separator, Seq::empty());
                if more is Some {
                    assert(views(earlier) + (seq![pending@] + more->Some_0) =~= views(found@)
                        + more->Some_0);
                }
            }
            pending = Vec::new();
        }
        pos = cut + 1;
    }
}

} // verus!
