//! Laws of where each step of the cursor leads, and of which part of the document
//! the window then shows.

use crate::columns::shown;
use crate::cursor::CursorView;
use crate::editor::{ActionView, EditorView};
use crate::keys::KeyCode;
use crate::laws::commands::{alone, attended};
use crate::laws::moving::law_steps_reach_rows;
use crate::laws::rendering::law_shown_is_as_wide_as_row;
use crate::output::OutputView;
use crate::text::lemma_seam;
use vstd::prelude::*;
use vstd::utf8::{encode_utf8, is_char_boundary};

verus! {

/// How many bytes row `y` has; none outside of the document.
pub open spec fn row_bytes(rows: Seq<Seq<char>>, y: int) -> int {
    if 0 <= y < rows.len() {
        encode_utf8(rows[y]).len() as int
    } else {
        0
    }
}

/// The cursor at another place of the document, in the same window.
pub open spec fn placed(cursor: CursorView, x: int, y: int) -> CursorView {
    CursorView { cursor_x: x, cursor_y: y, ..cursor }
}

/// `x`, or the end of row `y` if that comes first.
pub open spec fn cut_to_row(rows: Seq<Seq<char>>, x: int, y: int) -> int {
    if x <= row_bytes(rows, y) {
        x
    } else {
        row_bytes(rows, y)
    }
}

/// A step up keeps the cursor's offset, cut back only where the row above is
/// shorter. In the first row there is no step up.
pub proof fn law_up_keeps_offset(cursor: CursorView, rows: Seq<Seq<char>>)
    requires
        cursor.cursor_y >= 0,
    ensures
        cursor.cursor_y > 0 ==> cursor.moved(KeyCode::Up, rows) == placed(
            cursor,
            cut_to_row(rows, cursor.cursor_x, cursor.cursor_y - 1),
            cursor.cursor_y - 1,
        ),
        cursor.cursor_y == 0 ==> cursor.moved(KeyCode::Up, rows) == placed(
            cursor,
            cut_to_row(rows, cursor.cursor_x, 0),
            0,
        ),
        cursor.can_move(KeyCode::Up, rows),
{
}

/// A step down keeps the cursor's offset, cut back only where the row below is
/// shorter. Below the last row there is no step down.
pub proof fn law_down_keeps_offset(cursor: CursorView, rows: Seq<Seq<char>>)
    requires
        cursor.cursor_y >= 0,
    ensures
        cursor.cursor_y < rows.len() ==> cursor.moved(KeyCode::Down, rows) == placed(
            cursor,
            cut_to_row(rows, cursor.cursor_x, cursor.cursor_y + 1),
            cursor.cursor_y + 1,
        ),
        cursor.cursor_y >= rows.len() ==> cursor.moved(KeyCode::Down, rows) == placed(
            cursor,
            cut_to_row(rows, cursor.cursor_x, cursor.cursor_y),
            cursor.cursor_y,
        ),
        cursor.can_move(KeyCode::Down, rows),
{
}

/// A step to the right goes on by one byte, and from the end of a row to the start
/// of the next one. Below the last row there is no step to the right.
pub proof fn law_right_goes_on(cursor: CursorView, rows: Seq<Seq<char>>)
    requires
        cursor.cursor_y >= 0,
    ensures
        ({
            let x = cursor.cursor_x;
            let y = cursor.cursor_y;
            let moved = cursor.moved(KeyCode::Right, rows);
            &&& y < rows.len() && x < row_bytes(rows, y) ==> moved == placed(cursor, x + 1, y)
            &&& y < rows.len() && x == row_bytes(rows, y) ==> moved == placed(cursor, 0, y + 1)
            &&& y < rows.len() && x > row_bytes(rows, y) ==> moved == placed(
                cursor,
                row_bytes(rows, y),
                y,
            )
            &&& y >= rows.len() ==> moved == placed(cursor, cut_to_row(rows, x, y), y)
        }),
        cursor.can_move(KeyCode::Right, rows),
{
}

/// A step to the left goes back by one byte, and from the start of a row to the
/// end of the one above. At the start of the document there is no step to the
/// left.
pub proof fn law_left_goes_back(cursor: CursorView, rows: Seq<Seq<char>>)
    requires
        cursor.cursor_y >= 0,
    ensures
        ({
            let x = cursor.cursor_x;
            let y = cursor.cursor_y;
            let moved = cursor.moved(KeyCode::Left, rows);
            &&& x > 0 ==> moved == placed(cursor, cut_to_row(rows, x - 1, y), y)
            &&& x == 0 && y > 0 ==> moved == placed(cursor, row_bytes(rows, y - 1), y - 1)
            &&& x == 0 && y == 0 ==> moved == cursor
        }),
        cursor.can_move(KeyCode::Left, rows) <==> !(cursor.cursor_x == 0 && cursor.cursor_y
            > rows.len()),
{
}

/// Home leads to the start of the cursor's row and End to its end.
pub proof fn law_home_and_end_reach_ends(cursor: CursorView, rows: Seq<Seq<char>>)
    requires
        cursor.cursor_x >= 0,
        cursor.cursor_y >= 0,
    ensures
        cursor.moved(KeyCode::Home, rows) == placed(cursor, 0, cursor.cursor_y),
        cursor.moved(KeyCode::End, rows) == placed(
            cursor,
            row_bytes(rows, cursor.cursor_y),
            cursor.cursor_y,
        ),
        cursor.can_move(KeyCode::Home, rows),
        cursor.can_move(KeyCode::End, rows),
{
}

/// After steps that passed rows `low` to `high`, the cursor's offset is the one it
/// had, or the length of the shortest of those rows if that is less.
pub open spec fn cut_to_rows(rows: Seq<Seq<char>>, from: int, x: int, low: int, high: int) -> bool {
    &&& x <= from
    &&& forall|j: int| low <= j <= high ==> x <= #[trigger] row_bytes(rows, j)
    &&& x == from || exists|j: int| low <= j <= high && x == #[trigger] row_bytes(rows, j)
}

/// Several steps up keep the cursor's offset, cut back to the rows that they pass,
/// and leave the window alone.
pub proof fn law_steps_up_keep_offset(cursor: CursorView, rows: Seq<Seq<char>>, count: nat)
    requires
        0 <= cursor.cursor_y,
        count > 0,
    ensures
        ({
            let y = cursor.cursor_y;
            let up = cursor.moved_times(KeyCode::Up, rows, count);
            &&& up == placed(
                cursor,
                up.cursor_x,
                if y >= count {
                    y - count
                } else {
                    0
                },
            )
            &&& cut_to_rows(
                rows,
                cursor.cursor_x,
                up.cursor_x,
                up.cursor_y,
                if y > 0 {
                    y - 1
                } else {
                    0
                },
            )
        }),
    decreases count,
{
    let less = (count - 1) as nat;
    let start = cursor.moved_times(KeyCode::Up, rows, less);
    let end = cursor.moved_times(KeyCode::Up, rows, count);
    law_steps_reach_rows(cursor, rows, count);
    if count > 1 {
        law_steps_up_keep_offset(cursor, rows, less);
    } else {
        assert(start == cursor);
    }
    law_up_keeps_offset(start, rows);
    assert(end == start.moved(KeyCode::Up, rows));
    assert(end.cursor_x <= row_bytes(rows, end.cursor_y));
}

/// Several steps down keep the cursor's offset, cut back to the rows that they
/// pass, and leave the window alone.
pub proof fn law_steps_down_keep_offset(cursor: CursorView, rows: Seq<Seq<char>>, count: nat)
    requires
        0 <= cursor.cursor_y <= rows.len(),
        count > 0,
    ensures
        ({
            let y = cursor.cursor_y;
            let down = cursor.moved_times(KeyCode::Down, rows, count);
            &&& down == placed(
                cursor,
                down.cursor_x,
                if y + count <= rows.len() {
                    y + count
                } else {
                    rows.len() as int
                },
            )
            &&& cut_to_rows(
                rows,
                cursor.cursor_x,
                down.cursor_x,
                if y < rows.len() {
                    y + 1
                } else {
                    y
                },
                down.cursor_y,
            )
        }),
    decreases count,
{
    let less = (count - 1) as nat;
    let start = cursor.moved_times(KeyCode::Down, rows, less);
    let end = cursor.moved_times(KeyCode::Down, rows, count);
    law_steps_reach_rows(cursor, rows, count);
    if count > 1 {
        law_steps_down_keep_offset(cursor, rows, less);
    } else {
        assert(start == cursor);
    }
    law_down_keeps_offset(start, rows);
    assert(end == start.moved(KeyCode::Down, rows));
    assert(end.cursor_x <= row_bytes(rows, end.cursor_y));
}

/// Page Up leads as many rows up from the first line of the window as the window
/// has lines, but no further than the first row.
pub proof fn law_page_up(editor: EditorView)
    requires
        editor.output.prompt is None,
        0 <= editor.output.cursor.row_offset,
        editor.output.win_size.1 > 0,
    ensures
        editor.accepts(alone(KeyCode::PageUp)),
        ({
            let start = editor.output.cursor;
            let top = start.row_offset;
            let height = editor.output.win_size.1;
            let (paged, action) = editor.pressed(alone(KeyCode::PageUp));
            let cursor = paged.output.cursor;
            &&& action is Continue
            &&& paged == EditorView {
                output: OutputView { cursor, ..attended(editor) },
                quit_times: 1,
            }
            &&& cursor == placed(
                start,
                cursor.cursor_x,
                if top >= height {
                    top - height
                } else {
                    0
                },
            )
            &&& cut_to_rows(
                editor.output.rows,
                start.cursor_x,
                cursor.cursor_x,
                cursor.cursor_y,
                if top > 0 {
                    top - 1
                } else {
                    0
                },
            )
        }),
{
    let start = placed(
        editor.output.cursor,
        editor.output.cursor.cursor_x,
        editor.output.cursor.row_offset,
    );
    law_steps_up_keep_offset(start, editor.output.rows, editor.output.win_size.1 as nat);
}

/// Page Down leads as many rows down from the last line of the window as the
/// window has lines, but no further than the line below the last row.
pub proof fn law_page_down(editor: EditorView)
    requires
        editor.output.prompt is None,
        0 <= editor.output.cursor.row_offset,
        editor.output.win_size.1 > 0,
    ensures
        editor.accepts(alone(KeyCode::PageDown)) <==> editor.output.win_size.1
            + editor.output.cursor.row_offset <= usize::MAX,
        ({
            let start = editor.output.cursor;
            let rows = editor.output.rows;
            let height = editor.output.win_size.1;
            let bottom = if start.row_offset + height - 1 <= rows.len() {
                start.row_offset + height - 1
            } else {
                rows.len() as int
            };
            let (paged, action) = editor.pressed(alone(KeyCode::PageDown));
            let cursor = paged.output.cursor;
            &&& action is Continue
            &&& paged == EditorView {
                output: OutputView { cursor, ..attended(editor) },
                quit_times: 1,
            }
            &&& cursor == placed(
                start,
                cursor.cursor_x,
                if bottom + height <= rows.len() {
                    bottom + height
                } else {
                    rows.len() as int
                },
            )
            &&& cut_to_rows(
                rows,
                start.cursor_x,
                cursor.cursor_x,
                if bottom < rows.len() {
                    bottom + 1
                } else {
                    bottom
                },
                cursor.cursor_y,
            )
        }),
{
    let rows = editor.output.rows;
    let end = editor.output.cursor.row_offset + editor.output.win_size.1 - 1;
    let bottom = if end <= rows.len() {
        end
    } else {
        rows.len() as int
    };
    let start = placed(editor.output.cursor, editor.output.cursor.cursor_x, bottom);
    law_steps_down_keep_offset(start, rows, editor.output.win_size.1 as nat);
}

/// In a window without lines, turning pages only takes the cursor to the row that
/// the window begins with, or the one before that.
pub proof fn law_pages_without_lines(editor: EditorView)
    requires
        editor.output.prompt is None,
        0 <= editor.output.cursor.row_offset <= usize::MAX,
        editor.output.win_size.1 == 0,
    ensures
        ({
            let cursor = editor.output.cursor;
            let rows = editor.output.rows;
            let before = if cursor.row_offset - 1 <= rows.len() {
                cursor.row_offset - 1
            } else {
                rows.len() as int
            };
            let up = placed(cursor, cursor.cursor_x, cursor.row_offset);
            let down = placed(cursor, cursor.cursor_x, before);
            &&& editor.accepts(alone(KeyCode::PageUp))
            &&& editor.pressed(alone(KeyCode::PageUp)) == (
                EditorView {
                    output: OutputView { cursor: up, ..attended(editor) },
                    quit_times: 1,
                },
                ActionView::Continue,
            )
            &&& editor.accepts(alone(KeyCode::PageDown)) <==> cursor.row_offset > 0
            &&& editor.pressed(alone(KeyCode::PageDown)) == (
                EditorView {
                    output: OutputView { cursor: down, ..attended(editor) },
                    quit_times: 1,
                },
                ActionView::Continue,
            )
        }),
{
}

/// The cursor is shown right after what is shown for the part of its row before
/// it, and in the first column below the last row.
pub proof fn law_shown_column_follows_text(
    cursor: CursorView,
    rows: Seq<Seq<char>>,
    left: Seq<char>,
    right: Seq<char>,
)
    ensures
        0 <= cursor.cursor_y < rows.len() && rows[cursor.cursor_y] == left + right
            && cursor.cursor_x == encode_utf8(left).len() ==> cursor.shown_column(rows) == shown(
            left,
        ).len(),
        cursor.cursor_y >= rows.len() ==> cursor.shown_column(rows) == 0,
{
    lemma_seam(left, right);
    law_shown_is_as_wide_as_row(left);
}

/// `start` is where a window of `size` positions begins, that began at `offset`,
/// once it has moved just far enough to show `position`.
pub open spec fn follows(start: int, offset: int, position: int, size: int) -> bool {
    &&& offset <= position < offset + size ==> start == offset
    &&& size > 0 && position < offset ==> start == position
    &&& size > 0 && position >= offset + size ==> start + size == position + 1
    &&& size == 0 ==> start == position + 1
}

/// The window follows the cursor just far enough, both ways, and neither its size
/// nor the cursor's place in the document changes.
pub proof fn law_window_follows_cursor(cursor: CursorView, rows: Seq<Seq<char>>)
    requires
        cursor.screen_rows >= 0,
        cursor.screen_columns >= 0,
    ensures
        ({
            let seen = cursor.scrolled(rows);
            &&& follows(seen.row_offset, cursor.row_offset, cursor.cursor_y, cursor.screen_rows)
            &&& follows(
                seen.columns_offset,
                cursor.columns_offset,
                cursor.shown_column(rows),
                cursor.screen_columns,
            )
            &&& seen.render_x == cursor.shown_column(rows)
            &&& seen.cursor_x == cursor.cursor_x
            &&& seen.cursor_y == cursor.cursor_y
            &&& seen.screen_rows == cursor.screen_rows
            &&& seen.screen_columns == cursor.screen_columns
        }),
{
}

/// The window can follow the cursor wherever that does not stand inside of a
/// character, if the window has lines and columns.
pub proof fn law_window_can_follow_cursor(cursor: CursorView, rows: Seq<Seq<char>>)
    requires
        cursor.screen_rows > 0,
        cursor.screen_columns > 0,
    ensures
        cursor.can_scroll(rows) <==> (cursor.cursor_y < rows.len() ==> is_char_boundary(
            encode_utf8(rows[cursor.cursor_y]),
            cursor.cursor_x,
        )),
{
}

} // verus!
