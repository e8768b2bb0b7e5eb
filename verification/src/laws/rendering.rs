//! Laws of how rows are shown.

use crate::columns::{
    covering, covers, lemma_covering, lemma_covers_unique, lemma_shown_len, lemma_take,
    lemma_width_increases, next_column, shown, shown_char, width, TAB_STOP,
};
use crate::text::{before, byte_len, lemma_ascii_offsets, lemma_halves, on_boundary};
use vstd::prelude::*;
use vstd::utf8::is_ascii_chars;

verus! {

/// What follows a tab stands on a tab stop: the first one to the right of where
/// the tab stands.
pub proof fn law_tab_ends_on_stop(column: nat)
    ensures
        next_column(column, '\t') % (TAB_STOP as nat) == 0,
        column < next_column(column, '\t') <= column + TAB_STOP,
{
}

/// No tab is ever shown.
pub proof fn law_no_tab_is_shown(text: Seq<char>)
    ensures
        !shown(text).contains('\t'),
    decreases text.len(),
{
    if text.len() > 0 {
        let init = text.drop_last();
        law_no_tab_is_shown(init);
        let last = shown_char(width(init), text.last());
        assert forall|i: int| 0 <= i < shown(text).len() implies shown(text)[i] != '\t' by {
            if i < shown(init).len() {
                assert(shown(text)[i] == shown(init)[i]);
                assert(shown(init).contains(shown(init)[i]));
            } else {
                assert(shown(text)[i] == last[i - shown(init).len()]);
            }
        }
    }
}

/// A row without tabs is shown as it is.
pub proof fn law_row_without_tabs_is_shown_as_it_is(text: Seq<char>)
    requires
        !text.contains('\t'),
    ensures
        shown(text) == text,
        width(text) == text.len(),
    decreases text.len(),
{
    if text.len() > 0 {
        let init = text.drop_last();
        assert(text.contains(text.last()));
        assert forall|i: int| 0 <= i < init.len() implies init[i] != '\t' by {
            assert(text.contains(text[i]));
        }
        law_row_without_tabs_is_shown_as_it_is(init);
        assert(init.push(text.last()) =~= text);
    }
}

/// What is shown for a row is as wide as the row.
pub proof fn law_shown_is_as_wide_as_row(text: Seq<char>)
    ensures
        shown(text).len() == width(text),
{
    lemma_shown_len(text);
}

/// What is shown for the part before the cursor ends where the cursor is shown:
/// it is what stands in the columns before that of the cursor.
pub proof fn law_cursor_is_shown_after_what_precedes_it(text: Seq<char>, at: int)
    requires
        on_boundary(text, at),
    ensures
        shown(before(text, at)) == shown(text).take(width(before(text, at)) as int),
{
    lemma_halves(text, at);
    let head = before(text, at);
    lemma_shown_prefix(text, head.len() as int, text.len() as int);
    assert(text.take(head.len() as int) =~= head);
    assert(text.take(text.len() as int) =~= text);
}

proof fn lemma_shown_prefix(text: Seq<char>, count: int, end: int)
    requires
        0 <= count <= end <= text.len(),
    ensures
        width(text.take(count)) <= shown(text.take(end)).len(),
        shown(text.take(count)) == shown(text.take(end)).take(width(text.take(count)) as int),
    decreases end - count,
{
    lemma_shown_len(text.take(count));
    lemma_shown_len(text.take(end));
    lemma_width_increases(text, count, end);
    if count < end {
        lemma_shown_prefix(text, count, end - 1);
        lemma_take(text, end - 1);
        lemma_shown_len(text.take(end - 1));
        lemma_width_increases(text, count, end - 1);
        assert(shown(text.take(end)).take(width(text.take(count)) as int) =~= shown(
            text.take(end - 1),
        ).take(width(text.take(count)) as int));
    } else {
        assert(shown(text.take(end)).take(width(text.take(count)) as int) =~= shown(
            text.take(count),
        ));
    }
}

/// Looking up the column of a character finds that character again, and so does
/// looking up any other column that the character takes up.
pub proof fn law_column_leads_back_to_character(text: Seq<char>, i: int, column: nat)
    requires
        0 <= i < text.len(),
        width(text.take(i)) <= column < width(text.take(i + 1)),
    ensures
        covering(text, column) == i,
{
    lemma_width_increases(text, i + 1, text.len() as int);
    assert(text.take(text.len() as int) =~= text);
    lemma_covering(text, column);
    assert(covers(text, i, column));
    lemma_covers_unique(text, i, covering(text, column), column);
}

/// In a row of ASCII characters the cursor's offset and the column that it is
/// shown in determine each other.
pub proof fn law_cursor_column_leads_back_to_cursor(text: Seq<char>, at: int)
    requires
        is_ascii_chars(text),
        0 <= at < byte_len(text),
    ensures
        covering(text, width(before(text, at))) == at,
{
    lemma_ascii_offsets(text);
    assert(on_boundary(text, at));
    lemma_take(text, at);
    law_column_leads_back_to_character(text, at, width(text.take(at)));
}

} // verus!
