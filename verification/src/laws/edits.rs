//! Laws of what an edit makes of the row that the cursor divides.

use crate::cursor::CursorView;
use crate::editor::{ActionView, EditorView};
use crate::keys::KeyCode;
use crate::laws::commands::{alone, attended};
use crate::laws::editing::{
    in_row, lemma_joined_break, lemma_joined_halves, text_after_cursor, text_before_cursor,
};
use crate::lines::joined;
use crate::output::OutputView;
use crate::row::{with_char, without_char};
use crate::text::{
    after, before, lemma_chars_within_bytes, lemma_encode_concat, lemma_ends, lemma_halves, lemma_seam,
};
use vstd::prelude::*;
use vstd::utf8::{encode_utf8, is_char_boundary};

verus! {

/// The cursor stands in a row of the document, after `left` and before `right`.
pub open spec fn divides(output: OutputView, left: Seq<char>, right: Seq<char>) -> bool {
    &&& 0 <= output.cursor.cursor_y < output.rows.len()
    &&& output.rows[output.cursor.cursor_y] == left + right
    &&& output.cursor.cursor_x == encode_utf8(left).len()
}

/// The screen with another document, another place of the cursor in it, and so
/// many more changes.
pub open spec fn edited(
    output: OutputView,
    rows: Seq<Seq<char>>,
    x: int,
    y: int,
    changes: int,
) -> OutputView {
    OutputView {
        rows,
        cursor: CursorView { cursor_x: x, cursor_y: y, ..output.cursor },
        dirty: output.dirty + changes,
        ..output
    }
}

/// A character is inserted between the two parts of a text.
pub proof fn law_character_is_inserted_between(left: Seq<char>, right: Seq<char>, ch: char)
    ensures
        with_char(left + right, encode_utf8(left).len() as int, ch) == left.push(ch) + right,
{
    lemma_seam(left, right);
}

/// The character between two parts of a text is removed.
pub proof fn law_character_between_is_removed(left: Seq<char>, right: Seq<char>, ch: char)
    ensures
        without_char(left.push(ch) + right, encode_utf8(left).len() as int) == left + right,
{
    let rest = seq![ch] + right;
    assert(left.push(ch) + right =~= left + rest);
    lemma_seam(left, rest);
    assert(rest.drop_first() =~= right);
}

/// Typing puts the character between what stands before the cursor and after it
/// in its row, and takes the cursor one byte on. It is possible as long as the
/// change can be counted.
pub proof fn law_typing_divides_row(
    output: OutputView,
    left: Seq<char>,
    right: Seq<char>,
    ch: char,
)
    requires
        divides(output, left, right),
    ensures
        output.can_insert_char() <==> output.dirty < u64::MAX,
        output.insert_char(ch) == edited(
            output,
            output.rows.update(output.cursor.cursor_y, left.push(ch) + right),
            output.cursor.cursor_x + 1,
            output.cursor.cursor_y,
            1,
        ),
{
    lemma_seam(left, right);
    law_character_is_inserted_between(left, right, ch);
}

/// Typing below the last row adds a row with the character in it.
pub proof fn law_typing_below_document_adds_row(output: OutputView, ch: char)
    requires
        output.cursor.cursor_y == output.rows.len(),
        output.cursor.cursor_x == 0,
    ensures
        output.can_insert_char() <==> output.dirty + 2 <= u64::MAX,
        output.insert_char(ch) == edited(
            output,
            output.rows.push(seq![ch]),
            1,
            output.cursor.cursor_y,
            2,
        ),
{
    let none = Seq::<char>::empty();
    lemma_ends(none);
    assert(none.push(ch) + none =~= seq![ch]);
    assert(output.insert_char(ch).rows =~= output.rows.push(seq![ch]));
}

/// Nothing can be typed where the cursor stands outside of the document or inside
/// of a character.
pub proof fn law_typing_needs_cursor_in_document(output: OutputView)
    requires
        output.can_insert_char(),
    ensures
        if output.cursor.cursor_y == output.rows.len() {
            output.cursor.cursor_x == 0
        } else {
            &&& 0 <= output.cursor.cursor_y < output.rows.len()
            &&& is_char_boundary(
                encode_utf8(output.rows[output.cursor.cursor_y]),
                output.cursor.cursor_x,
            )
        },
{
}

/// Removing takes away the character that begins one byte before the cursor, and
/// takes the cursor back to where it began.
pub proof fn law_removing_takes_character(
    output: OutputView,
    left: Seq<char>,
    right: Seq<char>,
    ch: char,
)
    requires
        0 <= output.cursor.cursor_y < output.rows.len(),
        output.rows[output.cursor.cursor_y] == left.push(ch) + right,
        output.cursor.cursor_x == encode_utf8(left).len() + 1,
    ensures
        output.can_delete_char() <==> output.dirty < u64::MAX,
        output.delete_char() == edited(
            output,
            output.rows.update(output.cursor.cursor_y, left + right),
            output.cursor.cursor_x - 1,
            output.cursor.cursor_y,
            1,
        ),
{
    let rest = seq![ch] + right;
    assert(left.push(ch) + right =~= left + rest);
    lemma_seam(left, rest);
    lemma_encode_concat(left, rest);
    lemma_chars_within_bytes(rest);
    law_character_between_is_removed(left, right, ch);
}

/// At the start of a row removing appends the row to the one above, and puts the
/// cursor between the two.
pub proof fn law_removing_joins_rows(output: OutputView)
    requires
        output.cursor.cursor_x == 0,
        0 < output.cursor.cursor_y < output.rows.len(),
    ensures
        output.can_delete_char() <==> output.dirty < u64::MAX,
        ({
            let y = output.cursor.cursor_y;
            output.delete_char() == edited(
                output,
                output.rows.take(y - 1).push(output.rows[y - 1] + output.rows[y])
                    + output.rows.skip(y + 1),
                encode_utf8(output.rows[y - 1]).len() as int,
                y - 1,
                1,
            )
        }),
{
    let y = output.cursor.cursor_y;
    assert(output.delete_char().rows =~= output.rows.take(y - 1).push(
        output.rows[y - 1] + output.rows[y],
    ) + output.rows.skip(y + 1));
}

/// There is nothing to remove below the last row, where removing does nothing,
/// and at the start of a document that has rows, where it cannot be done.
pub proof fn law_nothing_to_remove(output: OutputView)
    ensures
        output.cursor.cursor_y == output.rows.len() ==> output.can_delete_char()
            && output.delete_char() == output,
        output.cursor.cursor_y == 0 && output.cursor.cursor_x == 0 && output.rows.len() > 0
            ==> !output.can_delete_char(),
{
}

/// Breaking leaves what stands before the cursor in its row, and makes a row of
/// what stands after it, at whose start the cursor then stands.
pub proof fn law_breaking_divides_row(output: OutputView, left: Seq<char>, right: Seq<char>)
    requires
        divides(output, left, right),
    ensures
        output.can_insert_newline() <==> output.dirty < u64::MAX,
        ({
            let y = output.cursor.cursor_y;
            output.insert_newline() == edited(
                output,
                output.rows.take(y).push(left).push(right) + output.rows.skip(y + 1),
                0,
                y + 1,
                1,
            )
        }),
{
    let y = output.cursor.cursor_y;
    lemma_seam(left, right);
    if output.cursor.cursor_x == 0 {
        lemma_chars_within_bytes(left);
        assert(left =~= Seq::empty());
        assert(left + right =~= right);
    }
    assert(output.insert_newline().rows =~= output.rows.take(y).push(left).push(right)
        + output.rows.skip(y + 1));
}

/// Breaking below the last row adds an empty row.
pub proof fn law_breaking_below_document_adds_row(output: OutputView)
    requires
        output.cursor.cursor_y == output.rows.len(),
        output.cursor.cursor_x == 0,
    ensures
        output.can_insert_newline() <==> output.dirty < u64::MAX,
        output.insert_newline() == edited(
            output,
            output.rows.push(Seq::empty()),
            0,
            output.cursor.cursor_y + 1,
            1,
        ),
{
    assert(output.insert_newline().rows =~= output.rows.push(Seq::empty()));
}

/// The delete key takes away the character that the cursor stands on, and the
/// cursor does not move.
pub proof fn law_delete_key_takes_character_at_cursor(
    editor: EditorView,
    left: Seq<char>,
    right: Seq<char>,
    ch: char,
)
    requires
        editor.output.prompt is None,
        divides(editor.output, left, seq![ch] + right),
    ensures
        editor.accepts(alone(KeyCode::Delete)) <==> editor.output.dirty < u64::MAX,
        editor.pressed(alone(KeyCode::Delete)) == (
            EditorView {
                output: edited(
                    attended(editor),
                    editor.output.rows.update(editor.output.cursor.cursor_y, left + right),
                    editor.output.cursor.cursor_x,
                    editor.output.cursor.cursor_y,
                    1,
                ),
                quit_times: 1,
            },
            ActionView::Continue,
        ),
{
    let output = attended(editor);
    lemma_encode_concat(left, seq![ch] + right);
    lemma_chars_within_bytes(seq![ch] + right);
    assert(left + (seq![ch] + right) =~= left.push(ch) + right);
    law_removing_takes_character(output.moved(KeyCode::Right), left, right, ch);
    law_removing_takes_character(editor.output.moved(KeyCode::Right), left, right, ch);
}

/// At the end of a row the delete key appends the next row to it, and the cursor
/// does not move.
pub proof fn law_delete_key_joins_rows(editor: EditorView)
    requires
        editor.output.prompt is None,
        0 <= editor.output.cursor.cursor_y < editor.output.rows.len() - 1,
        editor.output.cursor.cursor_x == encode_utf8(
            editor.output.rows[editor.output.cursor.cursor_y],
        ).len(),
    ensures
        editor.accepts(alone(KeyCode::Delete)) <==> editor.output.dirty < u64::MAX,
        ({
            let rows = editor.output.rows;
            let y = editor.output.cursor.cursor_y;
            editor.pressed(alone(KeyCode::Delete)) == (
                EditorView {
                    output: edited(
                        attended(editor),
                        rows.take(y).push(rows[y] + rows[y + 1]) + rows.skip(y + 2),
                        editor.output.cursor.cursor_x,
                        y,
                        1,
                    ),
                    quit_times: 1,
                },
                ActionView::Continue,
            )
        }),
{
    law_removing_joins_rows(attended(editor).moved(KeyCode::Right));
    law_removing_joins_rows(editor.output.moved(KeyCode::Right));
}

/// At the end of the last row, and below it, the delete key leaves the document
/// alone and the cursor below the last row.
pub proof fn law_delete_key_at_end_of_document(editor: EditorView)
    requires
        editor.output.prompt is None,
        ({
            let rows = editor.output.rows;
            let cursor = editor.output.cursor;
            ||| cursor.cursor_y == rows.len() && cursor.cursor_x >= 0
            ||| cursor.cursor_y == rows.len() - 1 && rows.len() > 0 && cursor.cursor_x
                == encode_utf8(rows.last()).len()
        }),
    ensures
        editor.accepts(alone(KeyCode::Delete)),
        editor.pressed(alone(KeyCode::Delete)) == (
            EditorView {
                output: edited(
                    attended(editor),
                    editor.output.rows,
                    0,
                    editor.output.rows.len() as int,
                    0,
                ),
                quit_times: 1,
            },
            ActionView::Continue,
        ),
{
}

proof fn lemma_joined_push(rows: Seq<Seq<char>>, ch: char, row: Seq<char>)
    requires
        row.len() > 0,
        row[0] == ch,
    ensures
        joined(seq![row] + rows).len() > 0,
        joined(seq![row] + rows).drop_first() == joined(seq![row.drop_first()] + rows),
{
    let whole = seq![row] + rows;
    let cut = seq![row.drop_first()] + rows;
    assert(whole.drop_first() =~= rows);
    assert(cut.drop_first() =~= rows);
    if rows.len() > 0 {
        assert(joined(whole).drop_first() =~= joined(cut));
    }
}

/// The delete key takes away the first character of the text that follows the
/// cursor, be it in the cursor's row or the line feed after it, and leaves the
/// rest of the document's text and the cursor alone.
pub proof fn law_delete_key_takes_first_of_what_follows(editor: EditorView)
    requires
        editor.output.prompt is None,
        in_row(editor.output),
        text_after_cursor(editor.output).len() > 0,
        editor.output.dirty < u64::MAX,
    ensures
        editor.accepts(alone(KeyCode::Delete)),
        ({
            let deleted = editor.pressed(alone(KeyCode::Delete)).0.output;
            &&& joined(deleted.rows) == text_before_cursor(editor.output) + text_after_cursor(
                editor.output,
            ).drop_first()
            &&& deleted.cursor == editor.output.cursor
        }),
{
    let output = editor.output;
    let x = output.cursor.cursor_x;
    let y = output.cursor.cursor_y;
    let row = output.rows[y];
    let above = output.rows.take(y);
    let below = output.rows.skip(y + 1);
    let left = before(row, x);
    let rest = after(row, x);
    lemma_halves(row, x);
    if rest.len() > 0 {
        let ch = rest[0];
        let right = rest.drop_first();
        assert(seq![ch] + right =~= rest);
        law_delete_key_takes_character_at_cursor(editor, left, right, ch);
        lemma_joined_halves(above, left, right, below);
        assert(output.rows.update(y, left + right) =~= above + (seq![left + right] + below));
        lemma_joined_push(below, ch, rest);
    } else {
        assert(rest =~= Seq::empty());
        assert(left + rest =~= left);
        assert(joined(seq![rest]) == rest);
        assert(below.len() > 0) by {
            if below.len() == 0 {
                assert(seq![rest] + below =~= seq![rest]);
            }
        }
        law_delete_key_joins_rows(editor);
        let next = output.rows[y + 1];
        let further = output.rows.skip(y + 2);
        lemma_joined_halves(above, row, next, further);
        assert(above.push(row + next) + further =~= above + (seq![row + next] + further));
        assert(seq![next] + further =~= below);
        lemma_joined_break(seq![rest], below);
        assert(text_after_cursor(output).drop_first() =~= joined(below));
    }
}

} // verus!
