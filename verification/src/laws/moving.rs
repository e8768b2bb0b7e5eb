//! Laws of how the cursor moves, and how the window follows it.

use crate::cursor::{follow, is_direction, least, row_len, CursorView};
use crate::keys::KeyCode;
use vstd::prelude::*;

verus! {

/// The cursor stands in a row, or below the last one, and not past the end.
pub open spec fn in_bounds(cursor: CursorView, rows: Seq<Seq<char>>) -> bool {
    &&& 0 <= cursor.cursor_y <= rows.len()
    &&& 0 <= cursor.cursor_x <= row_len(rows, cursor.cursor_y)
}

/// A cursor that stands in the document can move in every direction, and still
/// stands in the document then.
pub proof fn law_moving_stays_in_bounds(
    cursor: CursorView,
    direction: KeyCode,
    rows: Seq<Seq<char>>,
)
    requires
        in_bounds(cursor, rows),
        is_direction(direction),
    ensures
        cursor.can_move(direction, rows),
        in_bounds(cursor.moved(direction, rows), rows),
{
}

/// A step to the right is undone by one to the left. Below the last row there is
/// no step to the right.
pub proof fn law_left_undoes_right(cursor: CursorView, rows: Seq<Seq<char>>)
    requires
        in_bounds(cursor, rows),
        cursor.cursor_y < rows.len(),
    ensures
        cursor.moved(KeyCode::Right, rows).moved(KeyCode::Left, rows) == cursor,
{
}

/// A step to the left is undone by one to the right. At the start of the document
/// there is no step to the left.
pub proof fn law_right_undoes_left(cursor: CursorView, rows: Seq<Seq<char>>)
    requires
        in_bounds(cursor, rows),
        cursor.cursor_x > 0 || cursor.cursor_y > 0,
    ensures
        cursor.moved(KeyCode::Left, rows).moved(KeyCode::Right, rows) == cursor,
{
}

/// Steps up and down reach the rows that they lead to, no further than the start
/// of the document and the line below its end.
pub proof fn law_steps_reach_rows(
    cursor: CursorView,
    rows: Seq<Seq<char>>,
    count: nat,
)
    requires
        0 <= cursor.cursor_y,
    ensures
        cursor.moved_times(KeyCode::Up, rows, count).cursor_y == if cursor.cursor_y >= count {
            cursor.cursor_y - count
        } else {
            0
        },
        cursor.cursor_y <= rows.len() ==> cursor.moved_times(
            KeyCode::Down,
            rows,
            count,
        ).cursor_y == least(cursor.cursor_y + count, rows.len() as int),
    decreases count,
{
    if count > 0 {
        law_steps_reach_rows(cursor, rows, (count - 1) as nat);
    }
}

/// A window with lines and columns shows the cursor once it has followed it.
pub proof fn law_window_shows_cursor(cursor: CursorView, rows: Seq<Seq<char>>)
    requires
        cursor.screen_rows > 0,
        cursor.screen_columns > 0,
    ensures
        ({
            let seen = cursor.scrolled(rows);
            &&& seen.row_offset <= seen.cursor_y < seen.row_offset + seen.screen_rows
            &&& seen.columns_offset <= seen.render_x < seen.columns_offset + seen.screen_columns
        }),
{
}

/// A window that already shows the cursor does not move.
pub proof fn law_window_stays_while_cursor_is_shown(cursor: CursorView, rows: Seq<Seq<char>>)
    requires
        cursor.row_offset <= cursor.cursor_y < cursor.row_offset + cursor.screen_rows,
        cursor.columns_offset <= cursor.shown_column(rows) < cursor.columns_offset
            + cursor.screen_columns,
    ensures
        cursor.scrolled(rows).row_offset == cursor.row_offset,
        cursor.scrolled(rows).columns_offset == cursor.columns_offset,
{
}

/// Following the cursor twice is the same as following it once.
pub proof fn law_following_twice_changes_nothing(cursor: CursorView, rows: Seq<Seq<char>>)
    requires
        cursor.screen_rows > 0,
        cursor.screen_columns > 0,
    ensures
        cursor.scrolled(rows).scrolled(rows) == cursor.scrolled(rows),
{
}

/// A window moves no further than it must: it ends with the cursor when it moved
/// forwards, and begins with it when it moved backwards.
pub proof fn law_window_moves_no_further_than_needed(offset: int, position: int, size: int)
    requires
        size > 0,
    ensures
        follow(offset, position, size) > offset ==> follow(offset, position, size) + size
            == position + 1,
        follow(offset, position, size) < offset ==> follow(offset, position, size) == position,
{
}

} // verus!
