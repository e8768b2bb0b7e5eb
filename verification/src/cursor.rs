//! The cursor: where it stands in the document, and which part of the document
//! the window shows.

use crate::columns::{lemma_take, lemma_width_increases, width, TAB_STOP};
use crate::keys::KeyCode;
use crate::row::Row;
use crate::rows::EditorRows;
use crate::text::{
    at_boundary, before, byte_len, chars_of, lemma_halves, on_boundary, split_text, text_len,
};
use vstd::prelude::*;

verus! {

/// The cursor's place in the document (`cursor_x` is a byte offset into row
/// `cursor_y`), the column that it is shown in, and the window.
#[derive(Clone, Copy, Debug, PartialEq, Eq, Structural)]
pub struct CursorController {
    pub cursor_x: usize,
    pub cursor_y: usize,
    pub screen_columns: usize,
    pub screen_rows: usize,
    pub row_offset: usize,
    pub columns_offset: usize,
    pub render_x: usize,
}

/// The fields of a [`CursorController`] as mathematical integers.
pub struct CursorView {
    pub cursor_x: int,
    pub cursor_y: int,
    pub screen_columns: int,
    pub screen_rows: int,
    pub row_offset: int,
    pub columns_offset: int,
    pub render_x: int,
}

impl View for CursorController {
    type V = CursorView;

    open spec fn view(&self) -> CursorView {
        CursorView {
            cursor_x: self.cursor_x as int,
            cursor_y: self.cursor_y as int,
            screen_columns: self.screen_columns as int,
            screen_rows: self.screen_rows as int,
            row_offset: self.row_offset as int,
            columns_offset: self.columns_offset as int,
            render_x: self.render_x as int,
        }
    }
}

/// The smaller of two numbers.
pub open spec fn least(a: int, b: int) -> int {
    if a <= b {
        a
    } else {
        b
    }
}

/// The length of row `y`; zero below the last row.
pub open spec fn row_len(rows: Seq<Seq<char>>, y: int) -> int {
    if 0 <= y < rows.len() {
        byte_len(rows[y]) as int
    } else {
        0
    }
}

/// The first visible position once a window of `size` positions that began at
/// `offset` has been moved just far enough to show `position`.
pub open spec fn follow(offset: int, position: int, size: int) -> int {
    let start = least(offset, position);
    if position < start + size {
        start
    } else {
        position - size + 1
    }
}

/// Whether a key moves the cursor by one step.
pub open spec fn is_direction(code: KeyCode) -> bool {
    code is Up || code is Down || code is Left || code is Right || code is Home || code is End
}

impl CursorView {
    /// The cursor may be moved. Going left from the start of a row looks at the
    /// row above, which must exist.
    pub open spec fn can_move(self, direction: KeyCode, rows: Seq<Seq<char>>) -> bool {
        &&& is_direction(direction)
        &&& direction is Left && self.cursor_x == 0 ==> self.cursor_y <= rows.len()
    }

    /// The row that a step in `direction` leads to.
    pub open spec fn step_row(self, direction: KeyCode, rows: Seq<Seq<char>>) -> int {
        let at_start = self.cursor_x == 0;
        let at_end = self.cursor_x == row_len(rows, self.cursor_y);
        match direction {
            KeyCode::Up if self.cursor_y > 0 => self.cursor_y - 1,
            KeyCode::Left if at_start && self.cursor_y > 0 => self.cursor_y - 1,
            KeyCode::Down if self.cursor_y < rows.len() => self.cursor_y + 1,
            KeyCode::Right if at_end && self.cursor_y < rows.len() => self.cursor_y + 1,
            _ => self.cursor_y,
        }
    }

    /// The offset that a step in `direction` leads to, before it is cut back to
    /// the length of the row that it leads to.
    pub open spec fn step_offset(self, direction: KeyCode, rows: Seq<Seq<char>>) -> int {
        let len = row_len(rows, self.cursor_y);
        let in_rows = self.cursor_y < rows.len();
        match direction {
            KeyCode::Left if self.cursor_x > 0 => self.cursor_x - 1,
            KeyCode::Left if self.cursor_y > 0 => row_len(rows, self.cursor_y - 1),
            KeyCode::Right if in_rows && self.cursor_x < len => self.cursor_x + 1,
            KeyCode::Right if in_rows && self.cursor_x == len => 0,
            KeyCode::End if in_rows => len,
            KeyCode::Home => 0,
            _ => self.cursor_x,
        }
    }

    /// The cursor after a step in `direction`.
    pub open spec fn moved(self, direction: KeyCode, rows: Seq<Seq<char>>) -> CursorView {
        let y = self.step_row(direction, rows);
        CursorView {
            cursor_y: y,
            cursor_x: least(self.step_offset(direction, rows), row_len(rows, y)),
            ..self
        }
    }

    /// The cursor after `count` steps in `direction`.
    pub open spec fn moved_times(
        self,
        direction: KeyCode,
        rows: Seq<Seq<char>>,
        count: nat,
    ) -> CursorView
        decreases count,
    {
        if count == 0 {
            self
        } else {
            self.moved_times(direction, rows, (count - 1) as nat).moved(direction, rows)
        }
    }

    /// The column that the cursor is shown in.
    pub open spec fn shown_column(self, rows: Seq<Seq<char>>) -> int {
        if self.cursor_y < rows.len() {
            width(before(rows[self.cursor_y], self.cursor_x)) as int
        } else {
            0
        }
    }

    /// The window may be moved to the cursor: the cursor does not stand inside a
    /// character, and the new offsets can be represented.
    pub open spec fn can_scroll(self, rows: Seq<Seq<char>>) -> bool {
        &&& self.cursor_y < rows.len() ==> on_boundary(rows[self.cursor_y], self.cursor_x)
        &&& self.screen_rows > 0 || self.cursor_y < usize::MAX
        &&& self.screen_columns > 0 || self.shown_column(rows) < usize::MAX
    }

    /// The cursor with the window moved just far enough to show it.
    pub open spec fn scrolled(self, rows: Seq<Seq<char>>) -> CursorView {
        let render_x = self.shown_column(rows);
        CursorView {
            render_x,
            row_offset: follow(self.row_offset, self.cursor_y, self.screen_rows),
            columns_offset: follow(self.columns_offset, render_x, self.screen_columns),
            ..self
        }
    }
}

impl CursorController {
    /// A cursor at the start of the document, in a window of the given size.
    pub fn new(win_size: (usize, usize)) -> (cursor: CursorController)
        ensures
            cursor@ == (CursorView {
                cursor_x: 0,
                cursor_y: 0,
                screen_columns: win_size.0 as int,
                screen_rows: win_size.1 as int,
                row_offset: 0,
                columns_offset: 0,
                render_x: 0,
            }),
    {
        CursorController {
            cursor_x: 0,
            cursor_y: 0,
            screen_columns: win_size.0,
            screen_rows: win_size.1,
            row_offset: 0,
            columns_offset: 0,
            render_x: 0,
        }
    }

    /// Moves the cursor by one step.
    pub fn move_cursor(&mut self, direction: KeyCode, editor_rows: &EditorRows)
        requires
            old(self)@.can_move(direction, editor_rows@),
        ensures
            final(self)@ == old(self)@.moved(direction, editor_rows@),
    {
        let number_of_rows = editor_rows.number_of_rows();
        match direction {
            KeyCode::Up => {
                self.cursor_y = self.cursor_y.saturating_sub(1);
            },
            KeyCode::Left => {
                if self.cursor_x != 0 {
                    self.cursor_x -= 1;
                } else if self.cursor_y > 0 {
                    self.cursor_y -= 1;
                    self.cursor_x = text_len(editor_rows.get_row(self.cursor_y));
                }
            },
            KeyCode::Down => {
                if self.cursor_y < number_of_rows {
                    self.cursor_y += 1;
                }
            },
            KeyCode::Right => {
                if self.cursor_y < number_of_rows {
                    let len = text_len(editor_rows.get_row(self.cursor_y));
                    if self.cursor_x < len {
                        self.cursor_x += 1;
                    } else if self.cursor_x == len {
                        self.cursor_y += 1;
                        self.cursor_x = 0;
                    }
                }
            },
            KeyCode::End => {
                if self.cursor_y < number_of_rows {
                    self.cursor_x = text_len(editor_rows.get_row(self.cursor_y));
                }
            },
            KeyCode::Home => {
                self.cursor_x = 0;
            },
            _ => {},
        }
        let row_len = if self.cursor_y < number_of_rows {
            text_len(editor_rows.get_row(self.cursor_y))
        } else {
            0
        };
        if self.cursor_x > row_len {
            self.cursor_x = row_len;
        }
    }

    /// Whether the window may be moved to the cursor.
    pub fn may_scroll(&self, editor_rows: &EditorRows) -> (yes: bool)
        requires
            editor_rows.wf(),
        ensures
            yes == self@.can_scroll(editor_rows@),
    {
        let mut column: usize = 0;
        if self.cursor_y < editor_rows.number_of_rows() {
            let row = editor_rows.get_editor_row(self.cursor_y);
            if !at_boundary(row.row_content.as_str(), self.cursor_x) {
                return false;
            }
            row.check_width();
            proof {
                lemma_prefix_narrower(row@, self.cursor_x as int);
            }
            column = self.get_render_x(row);
        }
        (self.screen_rows > 0 || self.cursor_y < usize::MAX) && (self.screen_columns > 0 || column
            < usize::MAX)
    }

    /// Moves the window just far enough to show the cursor.
    pub fn scroll(&mut self, editor_rows: &EditorRows)
        requires
            editor_rows.wf(),
            old(self)@.can_scroll(editor_rows@),
        ensures
            final(self)@ == old(self)@.scrolled(editor_rows@),
    {
        self.render_x = 0;
        if self.cursor_y < editor_rows.number_of_rows() {
            let row = editor_rows.get_editor_row(self.cursor_y);
            row.check_width();
            proof {
                lemma_prefix_narrower(row@, self.cursor_x as int);
            }
            self.render_x = self.get_render_x(row);
        }
        if self.cursor_y < self.row_offset {
            self.row_offset = self.cursor_y;
        }
        if self.cursor_y - self.row_offset >= self.screen_rows {
            self.row_offset = self.cursor_y - self.screen_rows + 1;
        }
        if self.render_x < self.columns_offset {
            self.columns_offset = self.render_x;
        }
        if self.render_x - self.columns_offset >= self.screen_columns {
            self.columns_offset = self.render_x - self.screen_columns + 1;
        }
    }

    /// The column in which the cursor is shown when it stands in `row`.
    pub fn get_render_x(&self, row: &Row) -> (render_x: usize)
        requires
            on_boundary(row@, self.cursor_x as int),
            width(before(row@, self.cursor_x as int)) <= usize::MAX,
        ensures
            render_x == width(before(row@, self.cursor_x as int)),
    {
        let (head, _) = split_text(row.row_content.as_str(), self.cursor_x);
        let chars = chars_of(head);
        let mut render_x: usize = 0;
        let mut i: usize = 0;
        while i < chars.len()
            invariant
                width(chars@) <= usize::MAX,
                i <= chars.len(),
                render_x == width(chars@.take(i as int)),
            decreases chars.len() - i,
        {
            proof {
                lemma_take(chars@, i as int);
                lemma_width_increases(chars@, i + 1, chars@.len() as int);
                assert(chars@.take(chars@.len() as int) =~= chars@);
            }
            if chars[i] == '\t' {
                render_x = render_x + ((TAB_STOP - 1) - (render_x % TAB_STOP)) + 1;
            } else {
                render_x = render_x + 1;
            }
            i += 1;
        }
        assert(chars@.take(chars@.len() as int) =~= chars@);
        render_x
    }
}

/// What stands before an offset is no wider than the whole text.
pub proof fn lemma_prefix_narrower(text: Seq<char>, at: int)
    requires
        on_boundary(text, at),
    ensures
        width(before(text, at)) <= width(text),
{
    lemma_halves(text, at);
    let head = before(text, at);
    lemma_width_increases(text, head.len() as int, text.len() as int);
    assert(text.take(head.len() as int) =~= head);
    assert(text.take(text.len() as int) =~= text);
}

} // verus!
