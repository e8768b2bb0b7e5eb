//! Laws of how the document is changed.

use crate::lines::joined;
use crate::output::OutputView;
use crate::row::{with_char, without_char};
use crate::text::{
    after, before, byte_len, lemma_boundary_of_prefix, lemma_chars_within_bytes,
    lemma_encode_concat, lemma_ends, lemma_halves, lemma_seam, on_boundary,
};
use vstd::prelude::*;

verus! {

/// Removing the character that was just inserted gives the row back.
pub proof fn law_delete_undoes_insert_in_row(text: Seq<char>, at: int, ch: char)
    requires
        on_boundary(text, at),
    ensures
        on_boundary(with_char(text, at, ch), at),
        at < byte_len(with_char(text, at, ch)),
        without_char(with_char(text, at, ch), at) == text,
{
    lemma_halves(text, at);
    let left = before(text, at);
    let right = seq![ch] + after(text, at);
    assert(with_char(text, at, ch) =~= left + right);
    lemma_seam(left, right);
    lemma_encode_concat(left, right);
    lemma_chars_within_bytes(right);
    assert(right.drop_first() =~= after(text, at));
}

/// Removing the character that was just typed gives the document and the cursor
/// back. Below the last row typing also adds a row, which stays.
pub proof fn law_delete_undoes_insert(output: OutputView, ch: char)
    requires
        output.can_insert_char(),
        output.cursor.cursor_y < output.rows.len(),
        output.dirty + 2 <= u64::MAX,
    ensures
        output.insert_char(ch).can_delete_char(),
        output.insert_char(ch).delete_char() == (OutputView { dirty: output.dirty + 2, ..output }),
{
    let x = output.cursor.cursor_x;
    let y = output.cursor.cursor_y;
    lemma_halves(output.rows[y], x);
    law_delete_undoes_insert_in_row(output.rows[y], x, ch);
    assert(output.insert_char(ch).delete_char().rows =~= output.rows);
}

/// Joining the two parts of a row that was just broken gives the document and the
/// cursor back. Below the last row breaking adds a row, which stays.
pub proof fn law_delete_undoes_newline(output: OutputView)
    requires
        output.can_insert_newline(),
        output.cursor_in_text(),
        output.cursor.cursor_y < output.rows.len(),
        output.dirty + 2 <= u64::MAX,
    ensures
        output.insert_newline().can_delete_char(),
        output.insert_newline().delete_char() == (OutputView { dirty: output.dirty + 2, ..output }),
{
    let x = output.cursor.cursor_x;
    let y = output.cursor.cursor_y;
    let broken = output.insert_newline();
    lemma_halves(output.rows[y], x);
    if x == 0 {
        assert(broken.rows[y] + broken.rows[y + 1] =~= output.rows[y]);
    }
    assert(broken.delete_char().rows =~= output.rows);
}

/// Breaking a row where it was just joined to the one above gives the document
/// and the cursor back.
pub proof fn law_newline_undoes_joining(output: OutputView)
    requires
        output.can_delete_char(),
        output.cursor.cursor_x == 0,
        output.cursor.cursor_y < output.rows.len(),
        output.dirty + 2 <= u64::MAX,
    ensures
        output.delete_char().can_insert_newline(),
        output.delete_char().insert_newline() == (OutputView { dirty: output.dirty + 2, ..output }),
{
    let y = output.cursor.cursor_y;
    let above = output.rows[y - 1];
    lemma_seam(above, output.rows[y]);
    lemma_ends(above);
    let joined = output.delete_char();
    assert(joined.rows[y - 1] == above + output.rows[y]);
    if byte_len(above) == 0 {
        lemma_chars_within_bytes(above);
        assert(above =~= Seq::empty());
        assert(above + output.rows[y] =~= output.rows[y]);
    }
    assert(joined.insert_newline().rows =~= output.rows);
}

/// The document's text up to the cursor, with a line feed between each two rows.
pub open spec fn text_before_cursor(output: OutputView) -> Seq<char> {
    let y = output.cursor.cursor_y;
    joined(output.rows.take(y).push(before(output.rows[y], output.cursor.cursor_x)))
}

/// The document's text from the cursor on.
pub open spec fn text_after_cursor(output: OutputView) -> Seq<char> {
    let y = output.cursor.cursor_y;
    joined(seq![after(output.rows[y], output.cursor.cursor_x)] + output.rows.skip(y + 1))
}

/// The cursor stands in a row of the document.
pub open spec fn in_row(output: OutputView) -> bool {
    output.cursor_in_text() && output.cursor.cursor_y < output.rows.len()
}

pub proof fn lemma_joined_halves(
    above: Seq<Seq<char>>,
    left: Seq<char>,
    right: Seq<char>,
    below: Seq<Seq<char>>,
)
    ensures
        joined(above + (seq![left + right] + below)) == joined(above.push(left)) + joined(
            seq![right] + below,
        ),
    decreases above.len(),
{
    let whole = above + (seq![left + right] + below);
    if above.len() == 0 {
        assert(whole =~= seq![left + right] + below);
        assert(above.push(left) =~= seq![left]);
        if below.len() == 0 {
            assert(joined(whole) =~= left + right);
            assert(seq![right] + below =~= seq![right]);
        } else {
            assert(whole.drop_first() =~= below);
            assert((seq![right] + below).drop_first() =~= below);
            assert(joined(whole) =~= left + (right.push('\n') + joined(below)));
        }
    } else {
        let rest = above.drop_first();
        lemma_joined_halves(rest, left, right, below);
        assert(whole.drop_first() =~= rest + (seq![left + right] + below));
        assert(above.push(left).drop_first() =~= rest.push(left));
        assert(joined(whole) =~= joined(above.push(left)) + joined(seq![right] + below));
    }
}

pub proof fn lemma_joined_break(above: Seq<Seq<char>>, below: Seq<Seq<char>>)
    requires
        above.len() > 0,
        below.len() > 0,
    ensures
        joined(above + below) == joined(above).push('\n') + joined(below),
    decreases above.len(),
{
    let whole = above + below;
    if above.len() == 1 {
        assert(whole.drop_first() =~= below);
    } else {
        let rest = above.drop_first();
        lemma_joined_break(rest, below);
        assert(whole.drop_first() =~= rest + below);
        assert(joined(whole) =~= joined(above).push('\n') + joined(below));
    }
}

/// The cursor divides the document's text into what precedes it and what follows.
pub proof fn law_cursor_divides_text(output: OutputView)
    requires
        in_row(output),
    ensures
        joined(output.rows) == text_before_cursor(output) + text_after_cursor(output),
{
    let x = output.cursor.cursor_x;
    let y = output.cursor.cursor_y;
    let above = output.rows.take(y);
    let below = output.rows.skip(y + 1);
    lemma_halves(output.rows[y], x);
    lemma_joined_halves(above, before(output.rows[y], x), after(output.rows[y], x), below);
    assert(above + (seq![output.rows[y]] + below) =~= output.rows);
}

/// Typing a character puts it between what precedes the cursor and what follows,
/// and leaves the rest of the document's text alone.
pub proof fn law_typing_puts_character_at_cursor(output: OutputView, ch: char)
    requires
        in_row(output),
    ensures
        joined(output.insert_char(ch).rows) == text_before_cursor(output).push(ch)
            + text_after_cursor(output),
{
    let x = output.cursor.cursor_x;
    let y = output.cursor.cursor_y;
    let above = output.rows.take(y);
    let below = output.rows.skip(y + 1);
    let left = before(output.rows[y], x);
    let right = after(output.rows[y], x);
    lemma_joined_halves(above, left, seq![ch] + right, below);
    lemma_joined_halves(Seq::empty(), seq![ch], right, below);
    assert(Seq::<Seq<char>>::empty() + (seq![seq![ch] + right] + below) =~= seq![seq![ch] + right]
        + below);
    assert(Seq::<Seq<char>>::empty().push(seq![ch]) =~= seq![seq![ch]]);
    assert(left.push(ch) + right =~= left + (seq![ch] + right));
    assert(output.insert_char(ch).rows =~= above + (seq![left + (seq![ch] + right)] + below));
    assert(joined(seq![seq![ch]]) == seq![ch]);
    assert(joined(output.insert_char(ch).rows) =~= text_before_cursor(output).push(ch)
        + text_after_cursor(output));
}

/// Breaking a row puts a line feed between what precedes the cursor and what
/// follows, and leaves the rest of the document's text alone.
pub proof fn law_newline_puts_line_feed_at_cursor(output: OutputView)
    requires
        in_row(output),
    ensures
        joined(output.insert_newline().rows) == text_before_cursor(output).push('\n')
            + text_after_cursor(output),
{
    let x = output.cursor.cursor_x;
    let y = output.cursor.cursor_y;
    let left = before(output.rows[y], x);
    let right = after(output.rows[y], x);
    let above = output.rows.take(y).push(left);
    let below = seq![right] + output.rows.skip(y + 1);
    lemma_ends(output.rows[y]);
    assert(output.insert_newline().rows =~= above + below);
    lemma_joined_break(above, below);
}

proof fn lemma_neighbours(text: Seq<char>, at: int)
    requires
        0 < at,
        on_boundary(text, at - 1),
        on_boundary(text, at),
    ensures
        before(text, at).len() > 0,
        before(text, at - 1) == before(text, at).drop_last(),
        after(text, at - 1).len() > 0,
        after(text, at - 1).drop_first() == after(text, at),
{
    let head = before(text, at);
    let tail = after(text, at);
    lemma_boundary_of_prefix(text, at - 1, at);
    lemma_halves(text, at);
    lemma_halves(head, at - 1);
    let start = before(head, at - 1);
    let last = after(head, at - 1);
    lemma_chars_within_bytes(last);
    if last.len() == 0 {
        assert(byte_len(last) == 0);
    }
    assert(text =~= start + (last + tail));
    lemma_seam(start, last + tail);
    assert((last + tail).drop_first() =~= tail);
    assert(head.drop_last() =~= start);
}

/// Removing takes away the last character of the text that precedes the cursor,
/// be it in the cursor's row or the line feed before it, and leaves the rest of
/// the document's text alone.
pub proof fn law_delete_takes_character_before_cursor(output: OutputView)
    requires
        in_row(output),
        output.can_delete_char(),
    ensures
        text_before_cursor(output).len() > 0,
        joined(output.delete_char().rows) == text_before_cursor(output).drop_last()
            + text_after_cursor(output),
{
    let x = output.cursor.cursor_x;
    let y = output.cursor.cursor_y;
    let above = output.rows.take(y);
    let below = output.rows.skip(y + 1);
    let row = output.rows[y];
    lemma_halves(row, x);
    if x > 0 {
        lemma_neighbours(row, x);
        let left = before(row, x - 1);
        let right = after(row, x);
        let last = before(row, x).last();
        lemma_joined_halves(above, left, right, below);
        assert(output.delete_char().rows =~= above + (seq![left + right] + below));
        lemma_joined_halves(above, left, seq![last], Seq::empty());
        assert(left + seq![last] =~= before(row, x));
        assert(above + (seq![before(row, x)] + Seq::empty()) =~= above.push(before(row, x)));
        assert(seq![seq![last]] + Seq::empty() =~= seq![seq![last]]);
        assert(text_before_cursor(output) =~= joined(above.push(left)).push(last));
        assert(text_before_cursor(output).drop_last() =~= joined(above.push(left)));
    } else {
        lemma_ends(row);
        let higher = output.rows.take(y - 1);
        let previous = output.rows[y - 1];
        let none = Seq::<char>::empty();
        assert(above =~= higher.push(previous));
        lemma_joined_break(above, seq![none]);
        assert(above + seq![none] =~= above.push(none));
        assert(joined(seq![none]) =~= none);
        assert(text_before_cursor(output) =~= joined(above).push('\n'));
        assert(text_before_cursor(output).drop_last() =~= joined(above));
        lemma_joined_halves(higher, previous, row, below);
        assert(output.delete_char().rows =~= higher + (seq![previous + row] + below));
    }
}

} // verus!
