//! Laws of what each key does in a prompt, and of where a search leads.

use crate::columns::{covers, lemma_covering, lemma_covers_unique, shown};
use crate::cursor::CursorView;
use crate::editor::{ActionView, EditorView};
use crate::keys::{KeyCode, KeyEvent};
use crate::laws::commands::{alone, shifted};
use crate::laws::drawing::law_ascii_is_shown_as_ascii;
use crate::laws::prompting::law_search_finds_first_row;
use crate::laws::rendering::law_shown_is_as_wide_as_row;
use crate::lines::joined;
use crate::output::{row_with, OutputView, PromptKind, PromptView};
use crate::text::{first_match, lemma_first_match, occurs_at};
use vstd::prelude::*;
use vstd::utf8::{encode_utf8, is_ascii_chars};

verus! {

/// `word` is shown for `row` from column `at` on.
pub open spec fn shows_at(row: Seq<char>, word: Seq<char>, at: int) -> bool {
    &&& 0 <= at <= shown(row).len() - word.len()
    &&& shown(row).subrange(at, at + word.len()) == word
}

/// `word` is first shown in row `y` of `rows`, and there first from column `at` on.
pub open spec fn first_shown(rows: Seq<Seq<char>>, word: Seq<char>, y: int, at: int) -> bool {
    &&& 0 <= y < rows.len()
    &&& shows_at(rows[y], word, at)
    &&& forall|j: int, k: int| 0 <= j < y ==> !#[trigger] shows_at(rows[j], word, k)
    &&& forall|k: int| 0 <= k < at ==> !#[trigger] shows_at(rows[y], word, k)
}

/// `word` is shown nowhere in `rows`.
pub open spec fn shown_nowhere(rows: Seq<Seq<char>>, word: Seq<char>) -> bool {
    forall|j: int, k: int| 0 <= j < rows.len() ==> !#[trigger] shows_at(rows[j], word, k)
}

/// Character `x` of `row` is the one that is shown in `column`.
pub open spec fn stands_in_column(row: Seq<char>, x: int, column: int) -> bool {
    &&& 0 <= x < row.len()
    &&& shown(row.take(x)).len() <= column < shown(row.take(x + 1)).len()
}

proof fn lemma_row_found(rows: Seq<Seq<char>>, word: Seq<char>, from: int, y: int)
    requires
        0 <= from <= y < rows.len(),
        first_match(shown(rows[y]), word) is Some,
        forall|j: int| from <= j < y ==> first_match(#[trigger] shown(rows[j]), word) is None,
    ensures
        row_with(rows, word, from) == Some(y),
    decreases y - from,
{
    if from < y {
        assert(first_match(shown(rows[from]), word) is None);
        lemma_row_found(rows, word, from + 1, y);
    }
}

proof fn lemma_row_not_found(rows: Seq<Seq<char>>, word: Seq<char>, from: int)
    requires
        0 <= from,
        forall|j: int|
            from <= j < rows.len() ==> first_match(#[trigger] shown(rows[j]), word) is None,
    ensures
        row_with(rows, word, from) is None,
    decreases rows.len() - from,
{
    if from < rows.len() {
        assert(first_match(shown(rows[from]), word) is None);
        lemma_row_not_found(rows, word, from + 1);
    }
}

proof fn lemma_not_in_row(row: Seq<char>, word: Seq<char>)
    requires
        forall|k: int| !#[trigger] shows_at(row, word, k),
    ensures
        first_match(shown(row), word) is None,
{
    lemma_first_match(shown(row), word);
    if first_match(shown(row), word) is Some {
        assert(shows_at(row, word, first_match(shown(row), word)->0));
    }
}

/// A search for a text that is shown nowhere changes nothing.
pub proof fn law_search_in_vain_changes_nothing(output: OutputView, word: Seq<char>)
    requires
        shown_nowhere(output.rows, word),
    ensures
        output.found(word) == output,
{
    assert forall|j: int| 0 <= j < output.rows.len() implies first_match(
        #[trigger] shown(output.rows[j]),
        word,
    ) is None by {
        lemma_not_in_row(output.rows[j], word);
    }
    lemma_row_not_found(output.rows, word, 0);
}

/// A search leads to the first row in which the text is shown. The bytes that are
/// shown there before it tell the column, and the cursor goes to the character
/// that stands in that column, or to the start of the row where none does. The
/// window is set to begin below the document.
pub proof fn law_search_leads_to_first_place(output: OutputView, word: Seq<char>, y: int, at: int)
    requires
        first_shown(output.rows, word, y, at),
    ensures
        ({
            let row = output.rows[y];
            let column = encode_utf8(shown(row).take(at)).len() as int;
            let found = output.found(word);
            let x = found.cursor.cursor_x;
            &&& found == (OutputView {
                cursor: CursorView {
                    cursor_x: x,
                    cursor_y: y,
                    row_offset: output.rows.len() as int,
                    ..output.cursor
                },
                ..output
            })
            &&& column < shown(row).len() ==> stands_in_column(row, x, column)
            &&& column >= shown(row).len() ==> x == 0
        }),
{
    let row = output.rows[y];
    assert forall|j: int| 0 <= j < y implies first_match(
        #[trigger] shown(output.rows[j]),
        word,
    ) is None by {
        lemma_not_in_row(output.rows[j], word);
    }
    lemma_first_match(shown(row), word);
    assert(occurs_at(shown(row), word, at));
    let first = first_match(shown(row), word)->0;
    if first < at {
        assert(shows_at(row, word, first));
    }
    lemma_row_found(output.rows, word, 0, y);
    let column = encode_utf8(shown(row).take(at)).len();
    law_shown_is_as_wide_as_row(row);
    if column < shown(row).len() {
        let x = output.found(word).cursor.cursor_x;
        lemma_covering(row, column);
        law_shown_is_as_wide_as_row(row.take(x));
        law_shown_is_as_wide_as_row(row.take(x + 1));
    }
}

/// No two characters of a row are shown in one column, so a search leads to one
/// place only.
pub proof fn law_column_belongs_to_one_character(row: Seq<char>, i: int, j: int, column: int)
    requires
        column >= 0,
        stands_in_column(row, i, column),
        stands_in_column(row, j, column),
    ensures
        i == j,
{
    law_shown_is_as_wide_as_row(row.take(i));
    law_shown_is_as_wide_as_row(row.take(i + 1));
    law_shown_is_as_wide_as_row(row.take(j));
    law_shown_is_as_wide_as_row(row.take(j + 1));
    assert(covers(row, i, column as nat) && covers(row, j, column as nat));
    lemma_covers_unique(row, i, j, column as nat);
}

/// What has been typed into a prompt once a key is pressed that leaves it open: a
/// character key adds its character, tab adds a tab, and backspace and delete,
/// pressed alone, take the last character away. No other key changes the input.
pub open spec fn is_typed(input: Seq<char>, key: KeyEvent, typed: Seq<char>) -> bool {
    let modifiers = key.modifiers;
    if (key.code is Char || key.code is Tab) && !modifiers.control && !modifiers.alt {
        &&& typed.len() == input.len() + 1
        &&& typed.drop_last() == input
        &&& typed.last() == match key.code {
            KeyCode::Char(ch) => ch,
            _ => '\t',
        }
    } else if (key.code is Backspace || key.code is Delete) && !modifiers.shift
        && !modifiers.control && !modifiers.alt && input.len() > 0 {
        typed == input.take(input.len() - 1)
    } else {
        typed == input
    }
}

/// The key ends the prompt: escape does in any case, and enter pressed alone does
/// once something has been typed.
pub open spec fn ends_prompt(input: Seq<char>, key: KeyEvent) -> bool {
    key.code is Esc || key == alone(KeyCode::Enter) && input.len() > 0
}

/// The message line that shows a prompt.
pub open spec fn question(kind: PromptKind, input: Seq<char>) -> Seq<char> {
    match kind {
        PromptKind::SaveAs => "Save as: "@ + input,
        PromptKind::Search => "Search: "@ + input + " (ESC to cancel)"@,
    }
}

/// A key that does not end the prompt leaves it open with what has been typed,
/// shows that in the message line, and changes nothing else but, in a search, the
/// cursor and the window. Enter moves neither.
pub proof fn law_prompt_takes_input(editor: EditorView, key: KeyEvent)
    requires
        editor.output.prompt is Some,
        !ends_prompt(editor.output.prompt->0.input, key),
    ensures
        ({
            let kind = editor.output.prompt->0.kind;
            let (pressed, action) = editor.pressed(key);
            let input = pressed.output.prompt->0.input;
            let cursor = pressed.output.cursor;
            &&& action is Continue
            &&& pressed == EditorView {
                output: OutputView {
                    prompt: Some(PromptView { kind, input }),
                    message: Some(question(kind, input)),
                    cursor,
                    ..editor.output
                },
                ..editor
            }
            &&& is_typed(editor.output.prompt->0.input, key, input)
            &&& kind is SaveAs || key.code is Enter ==> cursor == editor.output.cursor
        }),
{
    let input = editor.output.prompt->0.input;
    let typed = OutputView::typed(input, key);
    if (key.code is Char || key.code is Tab) && !key.modifiers.control && !key.modifiers.alt {
        assert(typed.drop_last() =~= input);
    } else if input.len() > 0 {
        assert(input.drop_last() =~= input.take(input.len() - 1));
    }
}

/// After every key that leaves a search prompt open, save enter, the cursor stands
/// on the first place of the document where the whole new input is shown. It has
/// not moved where that is shown nowhere.
pub proof fn law_search_follows_input(editor: EditorView, key: KeyEvent)
    requires
        editor.output.prompt is Some,
        editor.output.prompt->0.kind is Search,
        !ends_prompt(editor.output.prompt->0.input, key),
        !(key.code is Enter),
    ensures
        ({
            let rows = editor.output.rows;
            let start = editor.output.cursor;
            let output = editor.pressed(key).0.output;
            let input = output.prompt->0.input;
            let cursor = output.cursor;
            &&& is_typed(editor.output.prompt->0.input, key, input)
            &&& shown_nowhere(rows, input) ==> cursor == start
            &&& forall|y: int, at: int| #[trigger]
                first_shown(rows, input, y, at) ==> {
                    let column = encode_utf8(shown(rows[y]).take(at)).len() as int;
                    &&& cursor == CursorView {
                        cursor_x: cursor.cursor_x,
                        cursor_y: y,
                        row_offset: rows.len() as int,
                        ..start
                    }
                    &&& column < shown(rows[y]).len() ==> stands_in_column(
                        rows[y],
                        cursor.cursor_x,
                        column,
                    )
                    &&& column >= shown(rows[y]).len() ==> cursor.cursor_x == 0
                }
        }),
{
    law_prompt_takes_input(editor, key);
    let output = editor.output;
    let input = editor.pressed(key).0.output.prompt->0.input;
    assert(editor.pressed(key).0.output.cursor == output.found(input).cursor);
    if shown_nowhere(output.rows, input) {
        law_search_in_vain_changes_nothing(output, input);
    }
    assert forall|y: int, at: int| #[trigger] first_shown(output.rows, input, y, at) implies {
        let column = encode_utf8(shown(output.rows[y]).take(at)).len() as int;
        let cursor = editor.pressed(key).0.output.cursor;
        &&& cursor == CursorView {
            cursor_x: cursor.cursor_x,
            cursor_y: y,
            row_offset: output.rows.len() as int,
            ..output.cursor
        }
        &&& column < shown(output.rows[y]).len() ==> stands_in_column(
            output.rows[y],
            cursor.cursor_x,
            column,
        )
        &&& column >= shown(output.rows[y]).len() ==> cursor.cursor_x == 0
    } by {
        law_search_leads_to_first_place(output, input, y, at);
    }
}

/// A text that is shown somewhere is first shown somewhere: every search either
/// is in vain or leads to a place.
pub proof fn law_search_has_outcome(rows: Seq<Seq<char>>, word: Seq<char>)
    ensures
        shown_nowhere(rows, word) || exists|y: int, at: int| first_shown(rows, word, y, at),
{
    law_search_finds_first_row(rows, word);
    match row_with(rows, word, 0) {
        Some(y) => {
            lemma_first_match(shown(rows[y]), word);
            let at = first_match(shown(rows[y]), word)->0;
            assert(occurs_at(shown(rows[y]), word, at));
            assert forall|j: int, k: int| 0 <= j < y implies !#[trigger] shows_at(
                rows[j],
                word,
                k,
            ) by {
                assert(!occurs_at(shown(rows[j]), word, k));
            }
            assert forall|k: int| 0 <= k < at implies !#[trigger] shows_at(rows[y], word, k) by {
                assert(!occurs_at(shown(rows[y]), word, k));
            }
            assert(first_shown(rows, word, y, at));
        },
        None => {
            assert forall|j: int, k: int| 0 <= j < rows.len() implies !#[trigger] shows_at(
                rows[j],
                word,
                k,
            ) by {
                assert(!occurs_at(shown(rows[j]), word, k));
            }
        },
    }
}

/// In a row of ASCII characters a search leads to the very character that is
/// shown where the text begins.
pub proof fn law_search_leads_to_character(output: OutputView, word: Seq<char>, y: int, at: int)
    requires
        first_shown(output.rows, word, y, at),
        is_ascii_chars(output.rows[y]),
        word.len() > 0,
    ensures
        output.found(word).cursor.cursor_y == y,
        stands_in_column(output.rows[y], output.found(word).cursor.cursor_x, at),
{
    law_search_leads_to_first_place(output, word, y, at);
    law_ascii_is_shown_as_ascii(output.rows[y]);
    vstd::utf8::is_ascii_chars_encode_utf8(shown(output.rows[y]).take(at));
}

/// Enter ends a search where it has led, and a prompt for a path with the
/// document being saved under it.
pub proof fn law_enter_ends_prompt(editor: EditorView)
    requires
        editor.output.prompt is Some,
        editor.output.prompt->0.input.len() > 0,
    ensures
        editor.pressed(alone(KeyCode::Enter)) == match editor.output.prompt->0.kind {
            PromptKind::Search => (
                EditorView {
                    output: OutputView {
                        prompt: None,
                        message: Some(Seq::empty()),
                        ..editor.output
                    },
                    ..editor
                },
                ActionView::Continue,
            ),
            PromptKind::SaveAs => (
                EditorView {
                    output: OutputView {
                        prompt: None,
                        message: Some(Seq::empty()),
                        filename: Some(editor.output.prompt->0.input),
                        ..editor.output
                    },
                    ..editor
                },
                ActionView::Save {
                    path: editor.output.prompt->0.input,
                    contents: joined(editor.output.rows),
                },
            ),
        },
{
}

/// A character key adds its character to the input of a prompt.
pub proof fn law_typed_character_joins_input(editor: EditorView, ch: char, shift: bool)
    requires
        editor.output.prompt is Some,
    ensures
        editor.pressed(shifted(KeyCode::Char(ch), shift)).0.output.prompt == Some(
            PromptView {
                kind: editor.output.prompt->0.kind,
                input: editor.output.prompt->0.input.push(ch),
            },
        ),
{
}

} // verus!
