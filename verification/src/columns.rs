//! Screen columns: how a row with tabs is laid out as text without them.

use crate::text::{byte_len, lemma_chars_within_bytes, repeated};
use vstd::prelude::*;

verus! {

/// Tabs reach to the next column that is a multiple of this.
pub const TAB_STOP: usize = 8;

/// The column that follows `ch` when `ch` stands at `column`.
pub open spec fn next_column(column: nat, ch: char) -> nat {
    if ch == '\t' {
        (column / TAB_STOP as nat + 1) * TAB_STOP as nat
    } else {
        column + 1
    }
}

/// The column that follows `text` when it starts at column zero.
pub open spec fn width(text: Seq<char>) -> nat
    decreases text.len(),
{
    if text.len() == 0 {
        0
    } else {
        next_column(width(text.drop_last()), text.last())
    }
}

/// What is shown for `ch` when it stands at `column`: spaces up to the next tab
/// stop for a tab, and any other character as it is.
pub open spec fn shown_char(column: nat, ch: char) -> Seq<char> {
    if ch == '\t' {
        repeated(' ', next_column(column, ch) - column)
    } else {
        seq![ch]
    }
}

/// What is shown for `text` when it starts at column zero.
pub open spec fn shown(text: Seq<char>) -> Seq<char>
    decreases text.len(),
{
    if text.len() == 0 {
        seq![]
    } else {
        shown(text.drop_last()) + shown_char(width(text.drop_last()), text.last())
    }
}

/// Each shown character takes up one column.
pub proof fn lemma_shown_len(text: Seq<char>)
    ensures
        shown(text).len() == width(text),
    decreases text.len(),
{
    if text.len() > 0 {
        lemma_shown_len(text.drop_last());
    }
}

/// Appending one character to a text.
pub proof fn lemma_push(text: Seq<char>, ch: char)
    ensures
        width(text.push(ch)) == next_column(width(text), ch),
        shown(text.push(ch)) == shown(text) + shown_char(width(text), ch),
{
    assert(text.push(ch).drop_last() =~= text);
}

/// The first `count` characters and one more.
pub proof fn lemma_take(text: Seq<char>, count: int)
    requires
        0 <= count < text.len(),
    ensures
        width(text.take(count + 1)) == next_column(width(text.take(count)), text[count]),
        shown(text.take(count + 1)) == shown(text.take(count)) + shown_char(
            width(text.take(count)),
            text[count],
        ),
{
    assert(text.take(count + 1) =~= text.take(count).push(text[count]));
    lemma_push(text.take(count), text[count]);
}

/// Later characters stand in later columns.
pub proof fn lemma_width_increases(text: Seq<char>, start: int, end: int)
    requires
        0 <= start <= end <= text.len(),
    ensures
        width(text.take(start)) + (end - start) <= width(text.take(end)),
    decreases end - start,
{
    if start < end {
        lemma_width_increases(text, start, end - 1);
        lemma_take(text, end - 1);
    }
}

/// The character of `text` that covers `column`, or the first one where none does.
pub open spec fn covering(text: Seq<char>, column: nat) -> int {
    if column < width(text) {
        choose|i: int| #[trigger] covers(text, i, column)
    } else {
        0
    }
}

/// Character `i` of `text` covers `column`.
pub open spec fn covers(text: Seq<char>, i: int, column: nat) -> bool {
    &&& 0 <= i < text.len()
    &&& width(text.take(i)) <= column < width(text.take(i + 1))
}

/// No two characters cover the same column.
pub proof fn lemma_covers_unique(text: Seq<char>, i: int, j: int, column: nat)
    requires
        covers(text, i, column),
        covers(text, j, column),
    ensures
        i == j,
{
    if i < j {
        lemma_width_increases(text, i + 1, j);
    }
    if j < i {
        lemma_width_increases(text, j + 1, i);
    }
}

/// Every column that a text takes up is covered by one of its characters.
pub proof fn lemma_covering(text: Seq<char>, column: nat)
    requires
        column < width(text),
    ensures
        covers(text, covering(text, column), column),
{
    assert(text.take(text.len() as int) =~= text);
    lemma_some_cover(text, text.len() as int, column);
}

proof fn lemma_some_cover(text: Seq<char>, count: int, column: nat)
    requires
        0 <= count <= text.len(),
        column < width(text.take(count)),
    ensures
        exists|i: int| #[trigger] covers(text, i, column),
    decreases count,
{
    if column < width(text.take(count - 1)) {
        lemma_some_cover(text, count - 1, column);
    } else {
        assert(covers(text, count - 1, column));
    }
}

/// A text whose shown form fits in memory is narrower than the machine's counters.
pub proof fn lemma_width_fits(text: Seq<char>, rendered: Seq<char>)
    requires
        rendered == shown(text),
        byte_len(rendered) <= usize::MAX,
    ensures
        width(text) <= usize::MAX,
{
    lemma_shown_len(text);
    lemma_chars_within_bytes(rendered);
}

} // verus!
