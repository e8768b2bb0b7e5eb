//! Laws of what every key press keeps, and of which ones can be acted upon.

use crate::columns::{lemma_covering, shown, width};
use crate::cursor::{is_direction, CursorView};
use crate::editor::{command, Command, EditorView};
use crate::keys::{KeyCode, KeyEvent};
use crate::laws::moving::{in_bounds, law_moving_stays_in_bounds};
use crate::laws::prompting::law_search_finds_first_row;
use crate::output::{match_offset, row_with, OutputView};
use crate::row::{with_char, without_char};
use crate::text::{
    after, before, byte_len, lemma_ascii_offsets, lemma_ends, lemma_halves, on_boundary,
};
use vstd::prelude::*;
use vstd::utf8::is_ascii_chars;

verus! {

/// Every row consists of ASCII characters.
pub open spec fn plain(rows: Seq<Seq<char>>) -> bool {
    forall|i: int| 0 <= i < rows.len() ==> is_ascii_chars(#[trigger] rows[i])
}

/// A document of ASCII characters with the cursor in it, in a window that has
/// lines and columns.
pub open spec fn sound(output: OutputView) -> bool {
    &&& plain(output.rows)
    &&& output.cursor_in_text()
    &&& output.windowed()
    &&& output.win_size.0 > 0
    &&& output.win_size.1 > 0
    &&& output.cursor.row_offset >= 0
    &&& output.cursor.columns_offset >= 0
}

/// The window does not begin below the cursor, as is the case whenever it has
/// followed the cursor.
pub open spec fn followed(output: OutputView) -> bool {
    output.cursor.row_offset <= output.cursor.cursor_y
}

/// What `key` types, if anything, is an ASCII character.
pub open spec fn types_ascii(key: KeyEvent) -> bool {
    command(key) matches Command::Insert(ch) ==> '\0' <= ch <= '\u{7f}'
}

proof fn lemma_in_bounds(output: OutputView)
    requires
        plain(output.rows),
    ensures
        output.cursor_in_text() <==> in_bounds(output.cursor, output.rows),
{
    let y = output.cursor.cursor_y;
    let x = output.cursor.cursor_x;
    if 0 <= y < output.rows.len() {
        lemma_ascii_offsets(output.rows[y]);
        if on_boundary(output.rows[y], x) {
            lemma_halves(output.rows[y], x);
        }
    }
}

proof fn lemma_paging_stays_in_bounds(
    cursor: CursorView,
    direction: KeyCode,
    rows: Seq<Seq<char>>,
    count: nat,
)
    requires
        0 <= cursor.cursor_y <= rows.len(),
        0 <= cursor.cursor_x,
        direction is Up || direction is Down,
        count > 0,
    ensures
        in_bounds(cursor.moved_times(direction, rows, count), rows),
        cursor.moved_times(direction, rows, count).row_offset == cursor.row_offset,
        cursor.moved_times(direction, rows, count).columns_offset == cursor.columns_offset,
        cursor.moved_times(direction, rows, count).screen_rows == cursor.screen_rows,
        cursor.moved_times(direction, rows, count).screen_columns == cursor.screen_columns,
    decreases count,
{
    if count > 1 {
        lemma_paging_stays_in_bounds(cursor, direction, rows, (count - 1) as nat);
    } else {
        assert(cursor.moved_times(direction, rows, 0) == cursor);
    }
}

proof fn lemma_ascii_row_edits(text: Seq<char>, at: int, ch: char)
    requires
        is_ascii_chars(text),
        0 <= at <= text.len(),
    ensures
        is_ascii_chars(before(text, at)),
        is_ascii_chars(after(text, at)),
        '\0' <= ch <= '\u{7f}' ==> is_ascii_chars(with_char(text, at, ch)) && byte_len(
            with_char(text, at, ch),
        ) == text.len() + 1,
        at < text.len() ==> is_ascii_chars(without_char(text, at)) && byte_len(
            without_char(text, at),
        ) == text.len() - 1,
{
    lemma_ascii_offsets(text);
    assert(on_boundary(text, at));
    if '\0' <= ch <= '\u{7f}' {
        lemma_ascii_offsets(with_char(text, at, ch));
    }
    if at < text.len() {
        lemma_ascii_offsets(without_char(text, at));
    }
}

/// Typing keeps a sound editor sound, if what is typed is ASCII.
proof fn lemma_insert_sound(output: OutputView, ch: char)
    requires
        sound(output),
        output.can_insert_char(),
        '\0' <= ch <= '\u{7f}',
    ensures
        sound(output.insert_char(ch)),
{
    let y = output.cursor.cursor_y;
    let x = output.cursor.cursor_x;
    let rows = if y == output.rows.len() {
        output.rows.push(Seq::empty())
    } else {
        output.rows
    };
    assert(is_ascii_chars(rows[y]));
    lemma_in_bounds(output);
    lemma_ascii_offsets(rows[y]);
    lemma_ascii_row_edits(rows[y], x, ch);
    let typed = output.insert_char(ch);
    assert forall|i: int| 0 <= i < typed.rows.len() implies is_ascii_chars(
        #[trigger] typed.rows[i],
    ) by {
        if i != y {
            assert(typed.rows[i] == output.rows[i]);
        }
    }
    lemma_in_bounds(typed);
}

proof fn lemma_newline_sound(output: OutputView)
    requires
        sound(output),
        output.can_insert_newline(),
    ensures
        sound(output.insert_newline()),
{
    let y = output.cursor.cursor_y;
    let x = output.cursor.cursor_x;
    lemma_in_bounds(output);
    let broken = output.insert_newline();
    if x != 0 {
        lemma_ascii_offsets(output.rows[y]);
        lemma_ascii_row_edits(output.rows[y], x, 'x');
    }
    assert forall|i: int| 0 <= i < broken.rows.len() implies is_ascii_chars(
        #[trigger] broken.rows[i],
    ) by {
        if i < y {
            assert(broken.rows[i] == output.rows[i]);
        } else if i > y + 1 || x == 0 && i == y + 1 {
            assert(broken.rows[i] == output.rows[i - 1]);
        }
    }
    lemma_in_bounds(broken);
}

proof fn lemma_delete_sound(output: OutputView)
    requires
        sound(output),
        output.can_delete_char(),
    ensures
        sound(output.delete_char()),
{
    let y = output.cursor.cursor_y;
    let x = output.cursor.cursor_x;
    lemma_in_bounds(output);
    let left = output.delete_char();
    if y < output.rows.len() {
        lemma_ascii_offsets(output.rows[y]);
        if x > 0 {
            lemma_ascii_row_edits(output.rows[y], x - 1, 'x');
            assert forall|i: int| 0 <= i < left.rows.len() implies is_ascii_chars(
                #[trigger] left.rows[i],
            ) by {
                if i != y {
                    assert(left.rows[i] == output.rows[i]);
                }
            }
        } else {
            assert(is_ascii_chars(output.rows[y - 1]));
            lemma_ascii_offsets(output.rows[y - 1]);
            assert forall|i: int| 0 <= i < left.rows.len() implies is_ascii_chars(
                #[trigger] left.rows[i],
            ) by {
                if i < y - 1 {
                    assert(left.rows[i] == output.rows[i]);
                } else if i >= y {
                    assert(left.rows[i] == output.rows[i + 1]);
                }
            }
            lemma_ascii_offsets(left.rows[y - 1]);
        }
        lemma_in_bounds(left);
    }
}

proof fn lemma_move_sound(output: OutputView, direction: KeyCode)
    requires
        sound(output),
        is_direction(direction),
    ensures
        sound(output.moved(direction)),
{
    lemma_in_bounds(output);
    law_moving_stays_in_bounds(output.cursor, direction, output.rows);
    lemma_in_bounds(output.moved(direction));
}

proof fn lemma_page_sound(output: OutputView, y: int, direction: KeyCode)
    requires
        sound(output),
        0 <= y <= output.rows.len(),
        direction is Up || direction is Down,
    ensures
        sound(output.paged(y, direction)),
{
    lemma_in_bounds(output);
    lemma_paging_stays_in_bounds(
        CursorView { cursor_y: y, ..output.cursor },
        direction,
        output.rows,
        output.win_size.1 as nat,
    );
    lemma_in_bounds(output.paged(y, direction));
}

/// A search keeps a sound editor sound.
pub proof fn law_search_keeps_editor_sound(output: OutputView, keyword: Seq<char>)
    requires
        sound(output),
    ensures
        sound(output.found(keyword)),
{
    law_search_finds_first_row(output.rows, keyword);
    if let Some(y) = row_with(output.rows, keyword, 0) {
        let row = output.rows[y];
        let column = match_offset(shown(row), keyword);
        lemma_ascii_offsets(row);
        if column < width(row) {
            lemma_covering(row, column);
        }
        lemma_in_bounds(output.found(keyword));
    }
}

/// Every key that the editor acts upon keeps a document of ASCII characters such,
/// and the cursor in it, as long as no other character is typed.
pub proof fn law_keys_keep_editor_sound(editor: EditorView, key: KeyEvent)
    requires
        sound(editor.output),
        followed(editor.output),
        editor.accepts(key),
        types_ascii(key),
    ensures
        sound(editor.pressed(key).0.output),
{
    let output = editor.attentive(key).output;
    if editor.output.prompt is Some {
        let prompt = editor.output.prompt->0;
        law_search_keeps_editor_sound(
            editor.output,
            OutputView::typed(prompt.input, key),
        );
        assert(sound(editor.output.prompt_key(key).0));
    } else {
        assert(sound(output));
        lemma_in_bounds(output);
        match command(key) {
            Command::Move(direction) => lemma_move_sound(output, direction),
            Command::PageUp => lemma_page_sound(output, output.cursor.row_offset, KeyCode::Up),
            Command::PageDown => lemma_page_sound(output, output.last_line(), KeyCode::Down),
            Command::Backspace => lemma_delete_sound(output),
            Command::Delete => {
                lemma_move_sound(output, KeyCode::Right);
                lemma_delete_sound(output.moved(KeyCode::Right));
            },
            Command::Newline => lemma_newline_sound(output),
            Command::Insert(ch) => lemma_insert_sound(output, ch),
            _ => {},
        }
    }
}

/// Drawing keeps a sound editor sound, and lets the window follow the cursor.
pub proof fn law_drawing_keeps_editor_sound(
    output: OutputView,
    name: Option<Seq<char>>,
    age: u128,
)
    requires
        sound(output),
    ensures
        sound(output.refreshed(name, age)),
        followed(output.refreshed(name, age)),
{
}

/// In a sound editor with room to count changes, the only keys that cannot be
/// acted upon outside of a prompt are backspace at the start of a document that
/// has rows, and a second request to quit when there is no file to remove.
pub proof fn law_only_two_keys_cannot_be_acted_upon(editor: EditorView, key: KeyEvent)
    requires
        sound(editor.output),
        editor.output.prompt is None,
        editor.output.dirty + 2 <= u64::MAX,
        editor.output.win_size.1 + editor.output.cursor.row_offset <= usize::MAX,
    ensures
        editor.accepts(key) <==> {
            &&& !(command(key) is Backspace && editor.output.cursor.cursor_x == 0
                && editor.output.cursor.cursor_y == 0 && editor.output.rows.len() > 0)
            &&& !(command(key) is Quit && editor.output.dirty > 0 && editor.quit_times == 0
                && editor.output.filename is None)
        },
{
    let output = editor.output;
    lemma_in_bounds(output);
    let next = output.moved(KeyCode::Right);
    lemma_move_sound(output, KeyCode::Right);
    lemma_in_bounds(next);
    if output.cursor.cursor_y < output.rows.len() {
        lemma_ascii_offsets(output.rows[output.cursor.cursor_y]);
    }
    if next.cursor.cursor_y < next.rows.len() {
        lemma_ascii_offsets(next.rows[next.cursor.cursor_y]);
    }
}

/// An editor that starts on rows of ASCII characters is sound, in a terminal that
/// has columns and more than two lines.
pub proof fn law_editor_starts_sound(
    size: (u16, u16),
    rows: Seq<Seq<char>>,
    filename: Option<Seq<char>>,
)
    requires
        size.0 > 0,
        size.1 > 2,
        plain(rows),
    ensures
        sound(OutputView::started(size, rows, filename)),
        followed(OutputView::started(size, rows, filename)),
{
    if rows.len() > 0 {
        lemma_ends(rows[0]);
    }
}

/// No row holds a line feed.
pub open spec fn rows_are_lines(rows: Seq<Seq<char>>) -> bool {
    forall|i: int| 0 <= i < rows.len() ==> !(#[trigger] rows[i]).contains('\n')
}

proof fn lemma_halves_hold_nothing_new(text: Seq<char>, at: int, ch: char)
    requires
        on_boundary(text, at),
        !text.contains(ch),
    ensures
        !before(text, at).contains(ch),
        !after(text, at).contains(ch),
{
    lemma_halves(text, at);
    let left = before(text, at);
    let right = after(text, at);
    assert forall|i: int| 0 <= i < left.len() implies left[i] != ch by {
        assert(text.contains(text[i]));
        assert(text[i] == left[i]);
    }
    assert forall|i: int| 0 <= i < right.len() implies right[i] != ch by {
        assert(text.contains(text[i + left.len()]));
        assert(text[i + left.len()] == right[i]);
    }
}

proof fn lemma_concat_holds_nothing_new(left: Seq<char>, right: Seq<char>, ch: char)
    requires
        !left.contains(ch),
        !right.contains(ch),
    ensures
        !(left + right).contains(ch),
{
    assert forall|i: int| 0 <= i < (left + right).len() implies (left + right)[i] != ch by {
        if i < left.len() {
            assert(left.contains(left[i]));
        } else {
            assert(right.contains(right[i - left.len()]));
        }
    }
}

proof fn lemma_delete_keeps_lines(output: OutputView)
    requires
        rows_are_lines(output.rows),
        output.can_delete_char(),
        0 <= output.cursor.cursor_y,
    ensures
        rows_are_lines(output.delete_char().rows),
{
    let y = output.cursor.cursor_y;
    let x = output.cursor.cursor_x;
    let left = output.delete_char();
    if y < output.rows.len() {
        let row = output.rows[y];
        if x > 0 {
            lemma_halves_hold_nothing_new(row, x - 1, '\n');
            lemma_halves(row, x - 1);
            let rest = after(row, x - 1);
            assert(rest.len() > 0);
            assert forall|i: int| 0 <= i < rest.drop_first().len() implies rest.drop_first()[i]
                != '\n' by {
                assert(rest.contains(rest[i + 1]));
            }
            lemma_concat_holds_nothing_new(before(row, x - 1), rest.drop_first(), '\n');
        } else {
            lemma_concat_holds_nothing_new(output.rows[y - 1], row, '\n');
            assert forall|i: int| 0 <= i < left.rows.len() implies !(
            #[trigger] left.rows[i]).contains('\n') by {
                if i < y - 1 {
                    assert(left.rows[i] == output.rows[i]);
                } else if i >= y {
                    assert(left.rows[i] == output.rows[i + 1]);
                }
            }
        }
    }
}

/// No key that the editor acts upon puts a line feed into a row, unless that very
/// character is typed.
pub proof fn law_keys_put_no_line_feed_into_rows(editor: EditorView, key: KeyEvent)
    requires
        rows_are_lines(editor.output.rows),
        editor.accepts(key),
        command(key) != Command::Insert('\n'),
        0 <= editor.output.cursor.cursor_x,
        0 <= editor.output.cursor.cursor_y,
    ensures
        rows_are_lines(editor.pressed(key).0.output.rows),
{
    let output = editor.output;
    let x = output.cursor.cursor_x;
    let y = output.cursor.cursor_y;
    if output.prompt is None {
        match command(key) {
            Command::Backspace => lemma_delete_keeps_lines(output),
            Command::Delete => lemma_delete_keeps_lines(output.moved(KeyCode::Right)),
            Command::Newline => {
                let broken = output.insert_newline();
                if x != 0 {
                    lemma_halves_hold_nothing_new(output.rows[y], x, '\n');
                }
                assert forall|i: int| 0 <= i < broken.rows.len() implies !(
                #[trigger] broken.rows[i]).contains('\n') by {
                    if i < y {
                        assert(broken.rows[i] == output.rows[i]);
                    } else if i > y + 1 || x == 0 && i == y + 1 {
                        assert(broken.rows[i] == output.rows[i - 1]);
                    }
                }
            },
            Command::Insert(ch) => {
                let row = if y == output.rows.len() {
                    Seq::empty()
                } else {
                    output.rows[y]
                };
                lemma_ends(Seq::empty());
                lemma_halves_hold_nothing_new(row, x, '\n');
                let head = before(row, x).push(ch);
                assert forall|i: int| 0 <= i < head.len() implies head[i] != '\n' by {
                    if i < before(row, x).len() {
                        assert(before(row, x).contains(head[i]));
                    }
                }
                lemma_concat_holds_nothing_new(head, after(row, x), '\n');
                let typed = output.insert_char(ch);
                assert forall|i: int| 0 <= i < typed.rows.len() implies !(
                #[trigger] typed.rows[i]).contains('\n') by {
                    if i != y {
                        assert(typed.rows[i] == output.rows[i]);
                    }
                }
            },
            _ => {},
        }
    }
}

} // verus!
