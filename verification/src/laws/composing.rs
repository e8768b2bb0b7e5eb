//! Laws of what each part of the screen consists of.

use crate::ansi::{hide_sequence, move_to_sequence, Erase};
use crate::columns::shown;
use crate::laws::drawing::{law_ascii_is_shown_as_ascii, law_cursor_is_placed_in_window};
use crate::output::OutputView;
use crate::screen::{greeting, greeting_line};
use crate::status::aged;
use crate::text::{
    between, decimal, lemma_ascii_offsets, lemma_chars_within_bytes, lemma_encode_concat, lemma_ends,
    lemma_seam,
};
use vstd::prelude::*;
use vstd::utf8::{encode_utf8, is_ascii_chars, is_char_boundary};

verus! {

/// How many bytes `text` has.
pub open spec fn bytes(text: Seq<char>) -> int {
    encode_utf8(text).len() as int
}

/// The smaller of two numbers.
pub open spec fn smaller(a: int, b: int) -> int {
    if a <= b {
        a
    } else {
        b
    }
}

/// Every character of `text` is a space.
pub open spec fn blank(text: Seq<char>) -> bool {
    forall|i: int| 0 <= i < text.len() ==> #[trigger] text[i] == ' '
}

/// The number that a text of decimal digits stands for.
pub open spec fn number_of(digits: Seq<char>) -> int
    decreases digits.len(),
{
    if digits.len() == 0 {
        0
    } else {
        10 * number_of(digits.drop_last()) + (digits.last() as int - '0' as int)
    }
}

/// A number in decimal consists of digits, does not start with a zero unless it
/// is zero, and stands for the number.
pub proof fn law_decimal_stands_for_number(value: nat)
    ensures
        number_of(decimal(value)) == value,
        decimal(value).len() > 0,
        value > 0 ==> decimal(value)[0] != '0',
        value == 0 ==> decimal(value) == seq!['0'],
        forall|i: int| 0 <= i < decimal(value).len() ==> '0' <= #[trigger] decimal(value)[i] <= '9',
    decreases value,
{
    reveal_with_fuel(number_of, 2);
    if value >= 10 {
        law_decimal_stands_for_number(value / 10);
        assert(decimal(value).drop_last() =~= decimal(value / 10));
    } else {
        assert(decimal(value).drop_last() =~= Seq::empty());
    }
}

/// A line of the window that lies in the document shows its row from the window's
/// first column on, as much of it as the window has columns.
pub proof fn law_line_shows_row_from_first_column(
    output: OutputView,
    i: int,
    left: Seq<char>,
    part: Seq<char>,
    right: Seq<char>,
)
    requires
        0 <= i + output.cursor.row_offset < output.rows.len(),
        shown(output.rows[i + output.cursor.row_offset]) == left + part + right,
        bytes(left) == output.cursor.columns_offset,
        bytes(part) == smaller(bytes(part) + bytes(right), output.win_size.0),
    ensures
        output.can_draw_line(i),
        output.window_line(i) == part,
{
    let row = left + part + right;
    lemma_encode_concat(left + part, right);
    lemma_encode_concat(left, part);
    lemma_seam(left + part, right);
    lemma_seam(left, part + right);
    lemma_seam(left, part);
    lemma_ends(row);
    assert(left + (part + right) =~= row);
    if bytes(part) == 0 {
        lemma_chars_within_bytes(part);
        assert(part =~= Seq::empty());
        lemma_ends(Seq::empty());
        assert(between(row, 0, 0) == part);
    }
}

/// A row that ends before the window's first column leaves its line empty.
pub proof fn law_line_of_shorter_row_is_empty(output: OutputView, i: int)
    requires
        0 <= i + output.cursor.row_offset < output.rows.len(),
        bytes(shown(output.rows[i + output.cursor.row_offset])) <= output.cursor.columns_offset,
        output.win_size.0 >= 0,
    ensures
        output.can_draw_line(i),
        output.window_line(i) == Seq::<char>::empty(),
{
    let row = shown(output.rows[i + output.cursor.row_offset]);
    lemma_ends(row);
    lemma_ends(Seq::empty());
}

/// Every line of the window that lies in an ASCII document shows what is shown for
/// its row between the window's first and last column. So all rows are cut at the
/// same columns.
pub proof fn law_lines_are_aligned(output: OutputView, i: int)
    requires
        0 <= i + output.cursor.row_offset < output.rows.len(),
        is_ascii_chars(output.rows[i + output.cursor.row_offset]),
        output.cursor.columns_offset >= 0,
        output.win_size.0 >= 0,
    ensures
        ({
            let row = shown(output.rows[i + output.cursor.row_offset]);
            let start = output.cursor.columns_offset;
            &&& output.can_draw_line(i)
            &&& start >= row.len() ==> output.window_line(i) == Seq::<char>::empty()
            &&& start < row.len() ==> output.window_line(i) == row.subrange(
                start,
                smaller(start + output.win_size.0, row.len() as int),
            )
            &&& forall|column: int|
                start <= column < start + output.win_size.0 && column < row.len()
                    ==> #[trigger] row[column] == output.window_line(i)[column - start]
        }),
{
    let row = shown(output.rows[i + output.cursor.row_offset]);
    let start = output.cursor.columns_offset;
    law_ascii_is_shown_as_ascii(output.rows[i + output.cursor.row_offset]);
    lemma_ascii_offsets(row);
    if start >= row.len() {
        law_line_of_shorter_row_is_empty(output, i);
    } else {
        let end = smaller(start + output.win_size.0, row.len() as int);
        let left = row.take(start);
        let part = row.subrange(start, end);
        let right = row.skip(end);
        lemma_ascii_offsets(left);
        lemma_ascii_offsets(part);
        lemma_ascii_offsets(right);
        assert(left + part + right =~= row);
        law_line_shows_row_from_first_column(output, i, left, part, right);
    }
}

/// A line below the document shows a tilde. Only in an empty document the line at
/// a third of the window's height greets instead.
pub proof fn law_lines_below_document(output: OutputView, i: int)
    requires
        0 <= i < output.win_size.1,
        i + output.cursor.row_offset >= output.rows.len(),
    ensures
        output.can_draw_line(i),
        output.rows.len() == 0 && i == output.win_size.1 / 3 ==> output.window_line(i)
            == greeting_line(output.win_size.0),
        !(output.rows.len() == 0 && i == output.win_size.1 / 3) ==> output.window_line(i)
            == seq!['~'],
{
}

/// The greeting is cut to the window. Where there is room on both sides it stands
/// in the middle, and the line begins with a tilde.
pub proof fn law_greeting_is_centred(columns: int)
    requires
        columns >= 0,
    ensures
        ({
            let text = "Test Editor --- Version 0.1.0"@;
            let line = greeting_line(columns);
            let margin = (columns - text.len()) / 2;
            &&& columns <= text.len() ==> line == text.take(columns)
            &&& columns == text.len() + 1 ==> line == text
            &&& columns >= text.len() + 2 ==> {
                &&& line.len() == margin + text.len()
                &&& line[0] == '~'
                &&& blank(line.subrange(1, margin))
                &&& line.skip(margin) == text
            }
        }),
{
    reveal_strlit("Test Editor --- Version 0.1.0");
    reveal_strlit("Test Editor --- Version ");
    reveal_strlit("0.1.0");
    let text = "Test Editor --- Version 0.1.0"@;
    assert(greeting() =~= text);
    assert(text.take(text.len() as int) =~= text);
    if columns >= text.len() + 2 {
        let margin = (columns - text.len()) / 2;
        assert(greeting_line(columns).skip(margin) =~= text);
    }
}

/// Lines of text, each with the rest of its line erased and the cursor sent to
/// the start of the next one.
pub open spec fn lines_sent(lines: Seq<Seq<char>>) -> Seq<char>
    decreases lines.len(),
{
    if lines.len() == 0 {
        seq![]
    } else {
        lines_sent(lines.drop_last()) + lines.last() + seq!['\u{1b}', '[', 'K', '\r', '\n']
    }
}

/// The lines of the window are sent from the first to the last.
pub proof fn law_lines_are_sent_in_order(output: OutputView, count: int)
    requires
        count >= 0,
    ensures
        output.window_lines(count) == lines_sent(
            Seq::new(count as nat, |i: int| output.window_line(i)),
        ),
    decreases count,
{
    let lines = Seq::new(count as nat, |i: int| output.window_line(i));
    if count > 0 {
        law_lines_are_sent_in_order(output, count - 1);
        assert(lines.drop_last() =~= Seq::new(
            (count - 1) as nat,
            |i: int| output.window_line(i),
        ));
        reveal_strlit("\r\n");
        assert(output.window_lines(count) =~= lines_sent(lines));
    }
}

/// The left part of the status bar names the file, tells of unsaved changes, and
/// counts the rows.
pub proof fn law_status_bar_describes_document(output: OutputView, name: Option<Seq<char>>)
    ensures
        ({
            let shown_name = match name {
                Some(name) => name,
                None => "[No Name]"@,
            };
            let rows = decimal(output.rows.len());
            &&& output.dirty > 0 ==> output.document_info(name) == shown_name + " (modified) --- "@
                + rows + " lines"@
            &&& output.dirty <= 0 ==> output.document_info(name) == shown_name + "  --- "@ + rows
                + " lines"@
        }),
{
    reveal_strlit("(modified)");
    reveal_strlit(" (modified) --- ");
    reveal_strlit("  --- ");
    reveal_strlit(" --- ");
    let shown_name = match name {
        Some(name) => name,
        None => "[No Name]"@,
    };
    let rows = decimal(output.rows.len());
    if output.dirty > 0 {
        assert(output.document_info(name) =~= shown_name + " (modified) --- "@ + rows
            + " lines"@);
    } else {
        assert(output.document_info(name) =~= shown_name + "  --- "@ + rows + " lines"@);
    }
}

/// The status bar is sent in reverse. It begins with as much of its left part as
/// fits, ends with the number of the cursor's row and of all rows if there is
/// room for that, and is blank in between.
pub proof fn law_status_bar_is_laid_out(
    output: OutputView,
    name: Option<Seq<char>>,
    left: Seq<char>,
    cut: Seq<char>,
)
    requires
        output.document_info(name) == left + cut,
        bytes(left) == smaller(bytes(left + cut), output.win_size.0),
        0 <= output.cursor.cursor_y < usize::MAX,
    ensures
        output.can_draw_status_bar(name),
        ({
            let opening = seq!['\u{1b}', '[', '7', 'm'];
            let closing = seq!['\u{1b}', '[', '0', 'm', '\r', '\n'];
            let right = decimal((output.cursor.cursor_y + 1) as nat) + seq!['/'] + decimal(
                output.rows.len(),
            );
            let room = output.win_size.0 - bytes(left);
            exists|gap: Seq<char>|
                {
                    &&& output.status_bar(name) == opening + left + gap + closing
                    &&& #[trigger] gap.len() == room
                    &&& room < right.len() ==> blank(gap)
                    &&& room >= right.len() ==> blank(gap.take(room - right.len())) && gap.skip(
                        room - right.len(),
                    ) == right
                }
        }),
{
    lemma_seam(left, cut);
    let right = decimal((output.cursor.cursor_y + 1) as nat) + seq!['/'] + decimal(
        output.rows.len(),
    );
    let room = output.win_size.0 - bytes(left);
    let gap = output.gap_filling(room);
    reveal_strlit("\r\n");
    assert(output.line_info() == right);
    assert(output.status_bar(name) =~= seq!['\u{1b}', '[', '7', 'm'] + left + gap + seq![
        '\u{1b}',
        '[',
        '0',
        'm',
        '\r',
        '\n',
    ]);
    if room >= right.len() {
        assert(gap.skip(room - right.len()) =~= right);
    }
    assert(gap.len() == room);
}

/// A message is shown for five seconds, as much of it as fits; after that, and
/// without one, the message line is empty.
pub proof fn law_message_line_shows_message(
    output: OutputView,
    age: u128,
    shown_part: Seq<char>,
    cut: Seq<char>,
)
    ensures
        ({
            let opening = seq!['\u{1b}', '[', 'K'];
            &&& age > 5_000_000_000 || output.message is None ==> output.message_bar(age) == opening
                && output.can_draw_message_bar(age) && aged(output.message, age) is None
            &&& age <= 5_000_000_000 && output.message == Some(shown_part + cut) && bytes(
                shown_part,
            ) == smaller(bytes(shown_part + cut), output.win_size.0) ==> output.message_bar(age)
                == opening + shown_part && output.can_draw_message_bar(age) && aged(
                output.message,
                age,
            ) == output.message
        }),
{
    lemma_seam(shown_part, cut);
    if output.message is None || age > 5_000_000_000 {
        assert(output.message_bar(age) =~= seq!['\u{1b}', '[', 'K']);
    }
}

/// What is sent to draw the screen: the cursor is hidden, the screen is erased
/// from its corner on, the lines of the window, the status bar and the message
/// line follow, and the cursor is shown again where it stands in the window, in
/// coordinates that count from one and name the line first.
pub proof fn law_screen_is_sent_in_order(output: OutputView, name: Option<Seq<char>>, age: u128)
    requires
        output.win_size.1 >= 0,
    ensures
        ({
            let seen = output.scrolled();
            let opening = seq![
                '\u{1b}', '[', '?', '2', '5', 'l', '\u{1b}', '[', '2', 'J', '\u{1b}', '[', '1',
                ';', '1', 'H',
            ];
            let lines = lines_sent(
                Seq::new(output.win_size.1 as nat, |i: int| seen.window_line(i)),
            );
            let place = seq!['\u{1b}', '['] + decimal((seen.terminal_line() + 1) as nat) + seq![
                ';',
            ] + decimal((seen.terminal_column() + 1) as nat) + seq!['H'];
            let closing = seq!['\u{1b}', '[', '?', '2', '5', 'h'];
            output.refreshed(name, age) == OutputView {
                contents: output.contents + (opening + lines + seen.status_bar(name)
                    + seen.message_bar(age) + place + closing),
                cursor: output.cursor.scrolled(output.rows),
                message: if age > 5_000_000_000 {
                    None
                } else {
                    output.message
                },
                ..output
            }
        }),
{
    let seen = output.scrolled();
    law_lines_are_sent_in_order(seen, output.win_size.1);
    law_decimal_stands_for_number(1);
    let opening = seq![
        '\u{1b}', '[', '?', '2', '5', 'l', '\u{1b}', '[', '2', 'J', '\u{1b}', '[', '1', ';', '1',
        'H',
    ];
    assert(decimal(1) =~= seq!['1']);
    assert(hide_sequence() + Erase::All.sequence() + move_to_sequence(0, 0) =~= opening);
    assert(seen.terminal_line() >= 0 && seen.terminal_column() >= 0);
}

/// A window that begins at byte `start` of a shown row cuts no character of it.
pub open spec fn cuts_no_character(row: Seq<char>, start: int, columns: int) -> bool {
    start < bytes(row) ==> is_char_boundary(encode_utf8(row), start) && is_char_boundary(
        encode_utf8(row),
        smaller(start + columns, bytes(row)),
    )
}

/// The screen can be drawn exactly when the cursor does not stand inside of a
/// character and no character is cut: not by the window's edges, in the status
/// bar, or in the message line.
pub proof fn law_screen_can_be_drawn(output: OutputView, name: Option<Seq<char>>, age: u128)
    requires
        output.windowed(),
        0 < output.win_size.0 <= u16::MAX,
        0 < output.win_size.1 <= u16::MAX,
        output.cursor.columns_offset >= 0,
        output.cursor.row_offset >= 0,
        0 <= output.cursor.cursor_y < usize::MAX,
    ensures
        output.can_refresh(name, age) <==> {
            let seen = output.scrolled();
            let info = output.document_info(name);
            &&& output.cursor.cursor_y < output.rows.len() ==> is_char_boundary(
                encode_utf8(output.rows[output.cursor.cursor_y]),
                output.cursor.cursor_x,
            )
            &&& forall|y: int|
                seen.cursor.row_offset <= y < seen.cursor.row_offset + output.win_size.1 && y
                    < output.rows.len() ==> cuts_no_character(
                    shown(#[trigger] output.rows[y]),
                    seen.cursor.columns_offset,
                    output.win_size.0,
                )
            &&& is_char_boundary(encode_utf8(info), smaller(bytes(info), output.win_size.0))
            &&& age <= 5_000_000_000 ==> (output.message matches Some(message)
                ==> is_char_boundary(
                encode_utf8(message),
                smaller(bytes(message), output.win_size.0),
            ))
        },
{
    let seen = output.scrolled();
    let top = seen.cursor.row_offset;
    law_cursor_is_placed_in_window(output);
    assert(seen.document_info(name) == output.document_info(name));
    assert forall|i: int| 0 <= i < output.win_size.1 && i + top < output.rows.len() implies (
    #[trigger] seen.can_draw_line(i) <==> cuts_no_character(
        shown(output.rows[i + top]),
        seen.cursor.columns_offset,
        output.win_size.0,
    )) by {
        lemma_ends(shown(output.rows[i + top]));
    }
    let fits = forall|y: int|
        top <= y < top + output.win_size.1 && y < output.rows.len() ==> cuts_no_character(
            shown(#[trigger] output.rows[y]),
            seen.cursor.columns_offset,
            output.win_size.0,
        );
    if seen.can_draw_rows() {
        assert forall|y: int|
            top <= y < top + output.win_size.1 && y
                < output.rows.len() implies cuts_no_character(
            shown(#[trigger] output.rows[y]),
            seen.cursor.columns_offset,
            output.win_size.0,
        ) by {
            assert(seen.can_draw_line(y - top));
        }
    }
    if fits {
        assert forall|i: int| 0 <= i < seen.win_size.1 implies #[trigger] seen.can_draw_line(i) by {
            if i + top < output.rows.len() {
                assert(cuts_no_character(
                    shown(output.rows[i + top]),
                    seen.cursor.columns_offset,
                    output.win_size.0,
                ));
            }
        }
    }
}

/// In a window that has no lines or no columns the cursor has no place, so that the
/// screen cannot be drawn.
pub proof fn law_screen_needs_room(output: OutputView, name: Option<Seq<char>>, age: u128)
    requires
        output.windowed(),
        output.win_size.0 == 0 || output.win_size.1 == 0,
    ensures
        !output.can_refresh(name, age),
{
}

} // verus!
