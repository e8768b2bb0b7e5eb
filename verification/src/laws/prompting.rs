//! Laws of prompts and of searching.

use crate::columns::{covers, lemma_covering, lemma_shown_len, lemma_width_increases, shown, width};
use crate::editor::EditorView;
use crate::keys::KeyEvent;
use crate::output::{row_with, OutputView};
use crate::text::{first_match, lemma_first_match, occurs_at};
use vstd::prelude::*;
use vstd::utf8::is_ascii_chars;

verus! {

/// An open prompt takes every key.
pub proof fn law_prompt_takes_every_key(editor: EditorView, key: KeyEvent)
    requires
        editor.output.prompt is Some,
    ensures
        editor.accepts(key),
{
}

/// No key that a prompt takes changes the rows or the count of changes.
pub proof fn law_prompt_leaves_document_alone(editor: EditorView, key: KeyEvent)
    requires
        editor.output.prompt is Some,
    ensures
        editor.pressed(key).0.output.rows == editor.output.rows,
        editor.pressed(key).0.output.dirty == editor.output.dirty,
{
}

/// Escape leaves a prompt, and nothing but the message line is changed by that.
pub proof fn law_escape_leaves_prompt(editor: EditorView, key: KeyEvent)
    requires
        editor.output.prompt is Some,
        key.code is Esc,
    ensures
        editor.pressed(key).1 is Continue,
        editor.pressed(key).0 == editor.with(
            OutputView {
                prompt: None,
                message: Some(
                    if editor.output.prompt->0.kind is SaveAs {
                        "Save canceled"@
                    } else {
                        Seq::empty()
                    },
                ),
                ..editor.output
            },
        ),
{
}

/// A path that is entered becomes the name of the document's file, which is then
/// saved.
pub proof fn law_entered_path_names_document(editor: EditorView, key: KeyEvent)
    requires
        editor.output.prompt is Some,
        editor.output.prompt->0.kind is SaveAs,
        editor.output.prompt->0.input.len() > 0,
        key.code is Enter,
        key.modifiers.is_none(),
    ensures
        editor.pressed(key).0.output.filename == Some(editor.output.prompt->0.input),
        editor.pressed(key).1 is Save,
        editor.pressed(key).1->path == editor.output.prompt->0.input,
{
}

/// While a prompt stays open the message line shows what has been typed.
pub proof fn law_open_prompt_shows_input(editor: EditorView, key: KeyEvent)
    requires
        editor.output.prompt is Some,
        editor.pressed(key).0.output.prompt is Some,
    ensures
        editor.pressed(key).0.output.prompt->0.kind == editor.output.prompt->0.kind,
        editor.pressed(key).0.output.message == Some(
            editor.output.prompt->0.kind.line(editor.pressed(key).0.output.prompt->0.input),
        ),
{
}

/// What erasing takes away from the input is what typing added last.
pub proof fn law_erasing_undoes_typing(input: Seq<char>, typed: KeyEvent, erased: KeyEvent)
    requires
        typed.code is Char || typed.code is Tab,
        typed.modifiers.is_plain(),
        erased.code is Backspace || erased.code is Delete,
        erased.modifiers.is_none(),
    ensures
        OutputView::typed(OutputView::typed(input, typed), erased) == input,
{
    assert(OutputView::typed(OutputView::typed(input, typed), erased) =~= input);
}

/// A search leaves everything but the cursor and the window alone.
pub proof fn law_search_moves_cursor_only(output: OutputView, keyword: Seq<char>)
    ensures
        output.found(keyword) == (OutputView {
            cursor: output.found(keyword).cursor,
            ..output
        }),
{
}

/// The row that a search finds is the first one in which the keyword is shown,
/// and one is found whenever the keyword is shown anywhere.
pub proof fn law_search_finds_first_row(rows: Seq<Seq<char>>, keyword: Seq<char>)
    ensures
        match row_with(rows, keyword, 0) {
            Some(y) => {
                &&& 0 <= y < rows.len()
                &&& exists|k: int| occurs_at(shown(rows[y]), keyword, k)
                &&& forall|j: int, k: int|
                    0 <= j < y ==> !#[trigger] occurs_at(shown(rows[j]), keyword, k)
            },
            None => forall|j: int, k: int|
                0 <= j < rows.len() ==> !#[trigger] occurs_at(shown(rows[j]), keyword, k),
        },
{
    lemma_row_with(rows, keyword, 0);
}

proof fn lemma_row_with(rows: Seq<Seq<char>>, keyword: Seq<char>, from: int)
    requires
        0 <= from,
    ensures
        match row_with(rows, keyword, from) {
            Some(y) => {
                &&& from <= y < rows.len()
                &&& exists|k: int| occurs_at(shown(rows[y]), keyword, k)
                &&& first_match(shown(rows[y]), keyword) is Some
                &&& forall|j: int, k: int|
                    from <= j < y ==> !#[trigger] occurs_at(shown(rows[j]), keyword, k)
            },
            None => forall|j: int, k: int|
                from <= j < rows.len() ==> !#[trigger] occurs_at(shown(rows[j]), keyword, k),
        },
    decreases rows.len() - from,
{
    if from < rows.len() {
        lemma_first_match(shown(rows[from]), keyword);
        if first_match(shown(rows[from]), keyword) is None {
            lemma_row_with(rows, keyword, from + 1);
        }
    }
}

/// In a row whose shown text is ASCII, a search puts the cursor on the character
/// that is shown where the keyword first stands, unless neither the keyword nor
/// the row has any character.
pub proof fn law_search_puts_cursor_on_match(output: OutputView, keyword: Seq<char>)
    requires
        row_with(output.rows, keyword, 0) is Some,
        is_ascii_chars(shown(output.rows[row_with(output.rows, keyword, 0)->0])),
        keyword.len() > 0 || output.rows[row_with(output.rows, keyword, 0)->0].len() > 0,
    ensures
        ({
            let cursor = output.found(keyword).cursor;
            let row = output.rows[cursor.cursor_y];
            let at = first_match(shown(row), keyword)->0;
            &&& 0 <= at < width(row)
            &&& occurs_at(shown(row), keyword, at)
            &&& covers(row, cursor.cursor_x, at as nat)
        }),
{
    let y = row_with(output.rows, keyword, 0)->0;
    let row = output.rows[y];
    lemma_row_with(output.rows, keyword, 0);
    lemma_first_match(shown(row), keyword);
    lemma_shown_len(row);
    lemma_width_increases(row, 0, row.len() as int);
    assert(row.take(row.len() as int) =~= row);
    assert(shown(row).subrange(0, 0) =~= Seq::<char>::empty());
    assert(keyword.len() == 0 ==> keyword =~= Seq::<char>::empty());
    let at = first_match(shown(row), keyword)->0;
    vstd::utf8::is_ascii_chars_encode_utf8(shown(row).take(at));
    lemma_covering(row, at as nat);
}

} // verus!
