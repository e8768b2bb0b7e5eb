//! Laws of what is sent to the terminal.

use crate::columns::{shown, shown_char, width};
use crate::cursor::lemma_prefix_narrower;
use crate::laws::rendering::{
    law_cursor_is_shown_after_what_precedes_it, law_shown_is_as_wide_as_row,
};
use crate::laws::soundness::sound;
use crate::output::OutputView;
use crate::paths::may_be_name;
use crate::screen::lemma_decimal_ascii;
use crate::status::{aged, MESSAGE_LIFETIME};
use crate::text::{
    before, between, is_range, lemma_ascii_offsets, lemma_boundary_of_prefix,
    lemma_chars_within_bytes, lemma_halves, occurs_at, on_boundary,
};
use vstd::prelude::*;
use vstd::utf8::is_ascii_chars;

verus! {

/// Drawing changes neither the document nor the cursor's place in it, and leaves
/// a prompt as it is.
pub proof fn law_drawing_leaves_document_alone(
    output: OutputView,
    name: Option<Seq<char>>,
    age: u128,
)
    ensures
        ({
            let drawn = output.refreshed(name, age);
            &&& drawn.rows == output.rows
            &&& drawn.filename == output.filename
            &&& drawn.dirty == output.dirty
            &&& drawn.prompt == output.prompt
            &&& drawn.cursor.cursor_x == output.cursor.cursor_x
            &&& drawn.cursor.cursor_y == output.cursor.cursor_y
        }),
{
}

/// A message is shown unchanged for its lifetime and not at all after that, and
/// one that was forgotten does not come back.
pub proof fn law_message_is_shown_for_its_lifetime(message: Option<Seq<char>>, age: u128)
    ensures
        age <= MESSAGE_LIFETIME ==> aged(message, age) == message,
        age > MESSAGE_LIFETIME ==> aged(message, age) is None,
        aged(None, age) is None,
{
}

/// A part of a text has no more characters than bytes.
proof fn lemma_between_len(text: Seq<char>, start: int, end: int)
    requires
        is_range(text, start, end),
    ensures
        between(text, start, end).len() <= end - start,
{
    lemma_halves(text, end);
    lemma_boundary_of_prefix(text, start, end);
    lemma_halves(before(text, end), start);
    lemma_chars_within_bytes(between(text, start, end));
}

/// No line of a window is wider than the window, if that has any columns.
pub proof fn law_lines_fit_into_window(output: OutputView, i: int)
    requires
        output.win_size.0 > 0,
        output.can_draw_line(i),
    ensures
        output.window_line(i).len() <= output.win_size.0,
{
    if i + output.cursor.row_offset < output.rows.len() {
        lemma_between_len(
            output.row_shown(i),
            output.visible_start(i),
            output.visible_start(i) + output.visible_len(i),
        );
    }
}

/// What the status bar shows of its left part and of the cursor's row is together
/// as wide as the window, if the left part is ASCII.
pub proof fn law_status_bar_fills_line(output: OutputView, name: Option<Seq<char>>)
    requires
        output.win_size.0 >= 0,
        is_ascii_chars(output.document_info(name)),
    ensures
        before(output.document_info(name), output.info_len(name)).len() + output.gap_filling(
            output.win_size.0 - output.info_len(name),
        ).len() == output.win_size.0,
{
    lemma_ascii_offsets(output.document_info(name));
    assert(on_boundary(output.document_info(name), output.info_len(name)));
}

/// What is shown for ASCII characters is ASCII.
pub proof fn law_ascii_is_shown_as_ascii(text: Seq<char>)
    requires
        is_ascii_chars(text),
    ensures
        is_ascii_chars(shown(text)),
    decreases text.len(),
{
    if text.len() > 0 {
        let init = text.drop_last();
        law_ascii_is_shown_as_ascii(init);
        let last = shown_char(width(init), text.last());
        assert forall|i: int| 0 <= i < shown(text).len() implies '\0' <= #[trigger] shown(text)[i]
            <= '\u{7f}' by {
            if i < shown(init).len() {
                assert(shown(text)[i] == shown(init)[i]);
            } else {
                assert(shown(text)[i] == last[i - shown(init).len()]);
            }
        }
    }
}

/// A sound editor whose status bar and message are ASCII can be drawn.
pub proof fn law_sound_editor_can_be_drawn(
    output: OutputView,
    name: Option<Seq<char>>,
    age: u128,
)
    requires
        sound(output),
        output.win_size.0 <= u16::MAX,
        output.win_size.1 <= u16::MAX,
        output.cursor.cursor_y < usize::MAX,
        is_ascii_chars(output.document_info(name)),
        output.message matches Some(message) ==> is_ascii_chars(message),
    ensures
        output.can_refresh(name, age),
{
    let scrolled = output.scrolled();
    assert forall|i: int| 0 <= i < scrolled.win_size.1 implies #[trigger] scrolled.can_draw_line(
        i,
    ) by {
        if i + scrolled.cursor.row_offset < scrolled.rows.len() {
            law_ascii_is_shown_as_ascii(output.rows[i + scrolled.cursor.row_offset]);
            lemma_ascii_offsets(scrolled.row_shown(i));
            assert(on_boundary(scrolled.row_shown(i), scrolled.visible_start(i)));
            assert(on_boundary(
                scrolled.row_shown(i),
                scrolled.visible_start(i) + scrolled.visible_len(i),
            ));
        }
    }
    assert(scrolled.document_info(name) == output.document_info(name));
    lemma_ascii_offsets(output.document_info(name));
    assert(on_boundary(output.document_info(name), scrolled.info_len(name)));
    if let Some(message) = output.message {
        lemma_ascii_offsets(message);
        assert(on_boundary(message, scrolled.message_len(message)));
    }
}

/// A sound editor whose message and path are ASCII can be drawn, wherever its
/// file lies.
pub proof fn law_ascii_screen_can_be_drawn(output: OutputView, name: Option<Seq<char>>, age: u128)
    requires
        sound(output),
        output.win_size.0 <= u16::MAX,
        output.win_size.1 <= u16::MAX,
        output.cursor.cursor_y < usize::MAX,
        output.filename matches Some(path) ==> is_ascii_chars(path),
        output.message matches Some(message) ==> is_ascii_chars(message),
        may_be_name(output.filename, name),
    ensures
        output.can_refresh(name, age),
{
    lemma_decimal_ascii(output.rows.len());
    reveal_strlit("[No Name]");
    reveal_strlit("(modified)");
    reveal_strlit(" --- ");
    reveal_strlit(" lines");
    if let Some(part) = name {
        let path = output.filename->0;
        let at = choose|at: int| occurs_at(path, part, at);
        assert forall|i: int| 0 <= i < part.len() implies '\0' <= #[trigger] part[i] <= '\u{7f}' by {
            assert(part[i] == path.subrange(at, at + part.len())[i]);
            assert(part[i] == path[at + i]);
        }
    }
    law_sound_editor_can_be_drawn(output, name, age);
}

/// The cursor is placed inside of the window: in the column that it is shown in
/// and the line of its row, both counted from where the window begins.
pub proof fn law_cursor_is_placed_in_window(output: OutputView)
    requires
        output.windowed(),
        0 < output.win_size.0 <= u16::MAX,
        0 < output.win_size.1 <= u16::MAX,
        output.cursor.columns_offset >= 0,
        output.cursor.row_offset >= 0,
        output.cursor.cursor_y >= 0,
    ensures
        ({
            let drawn = output.scrolled();
            &&& drawn.can_place_cursor()
            &&& drawn.terminal_column() == output.cursor.shown_column(output.rows)
                - drawn.cursor.columns_offset
            &&& drawn.terminal_line() == output.cursor.cursor_y - drawn.cursor.row_offset
            &&& 0 <= drawn.terminal_column() < drawn.win_size.0
            &&& 0 <= drawn.terminal_line() < drawn.win_size.1
        }),
{
}

/// The cursor is placed where what stands before it in its row ends: what is
/// shown for that part reaches up to the cursor's column, tabs included.
pub proof fn law_cursor_is_placed_after_what_precedes_it(output: OutputView)
    requires
        output.windowed(),
        0 < output.win_size.0 <= u16::MAX,
        0 < output.win_size.1 <= u16::MAX,
        output.cursor.columns_offset >= 0,
        output.cursor.row_offset >= 0,
        0 <= output.cursor.cursor_y < output.rows.len(),
        on_boundary(output.rows[output.cursor.cursor_y], output.cursor.cursor_x),
    ensures
        ({
            let row = output.rows[output.cursor.cursor_y];
            let head = before(row, output.cursor.cursor_x);
            let drawn = output.scrolled();
            let column = drawn.terminal_column() + drawn.cursor.columns_offset;
            &&& column == shown(head).len()
            &&& shown(head) == shown(row).take(column)
        }),
{
    let row = output.rows[output.cursor.cursor_y];
    law_cursor_is_placed_in_window(output);
    law_cursor_is_shown_after_what_precedes_it(row, output.cursor.cursor_x);
    law_shown_is_as_wide_as_row(before(row, output.cursor.cursor_x));
}

/// In a sound editor, what the window shows to the left of the cursor is the end
/// of what is shown for the part of the row before the cursor.
pub proof fn law_window_shows_what_precedes_cursor(output: OutputView)
    requires
        sound(output),
        output.win_size.0 <= u16::MAX,
        output.win_size.1 <= u16::MAX,
        output.cursor.cursor_y < output.rows.len(),
    ensures
        ({
            let head = before(output.rows[output.cursor.cursor_y], output.cursor.cursor_x);
            let drawn = output.scrolled();
            let line = drawn.window_line(drawn.terminal_line());
            &&& drawn.terminal_column() <= line.len()
            &&& line.take(drawn.terminal_column()) == shown(head).skip(drawn.cursor.columns_offset)
        }),
{
    law_cursor_is_placed_in_window(output);
    law_cursor_is_placed_after_what_precedes_it(output);
    let row = output.rows[output.cursor.cursor_y];
    let head = before(row, output.cursor.cursor_x);
    let drawn = output.scrolled();
    let i = drawn.terminal_line();
    let start = drawn.visible_start(i);
    let end = start + drawn.visible_len(i);
    assert(drawn.row_shown(i) == shown(row));
    law_ascii_is_shown_as_ascii(row);
    lemma_ascii_offsets(shown(row));
    lemma_prefix_narrower(row, output.cursor.cursor_x);
    law_shown_is_as_wide_as_row(row);
    law_shown_is_as_wide_as_row(head);
    assert(on_boundary(shown(row), end));
    let visible = shown(row).take(end);
    assert(before(shown(row), end) == visible);
    lemma_ascii_offsets(visible);
    assert(on_boundary(visible, start));
    assert(drawn.window_line(i) == visible.skip(start));
    assert(drawn.window_line(i).take(drawn.terminal_column()) =~= shown(head).skip(
        drawn.cursor.columns_offset,
    ));
}

} // verus!
