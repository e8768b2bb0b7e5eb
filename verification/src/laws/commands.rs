//! Laws of what each key means and does outside of a prompt.

use crate::editor::{command, ActionView, Command, EditorView};
use crate::keys::{KeyCode, KeyEvent, KeyModifiers};
use crate::lines::joined;
use crate::output::{OutputView, PromptKind, PromptView};
use crate::text::decimal;
use vstd::prelude::*;

verus! {

/// A key pressed on its own.
pub open spec fn alone(code: KeyCode) -> KeyEvent {
    KeyEvent { code, modifiers: KeyModifiers { shift: false, control: false, alt: false } }
}

/// A key pressed on its own or with shift.
pub open spec fn shifted(code: KeyCode, shift: bool) -> KeyEvent {
    KeyEvent { code, modifiers: KeyModifiers { shift, control: false, alt: false } }
}

/// A character key pressed with control.
pub open spec fn control(ch: char) -> KeyEvent {
    KeyEvent {
        code: KeyCode::Char(ch),
        modifiers: KeyModifiers { shift: false, control: true, alt: false },
    }
}

/// The screen that a key finds which does not ask to quit: an earlier request to
/// quit is taken back, which empties the message line.
pub open spec fn attended(editor: EditorView) -> OutputView {
    if editor.quit_times != 1 {
        OutputView { message: Some(Seq::empty()), ..editor.output }
    } else {
        editor.output
    }
}

/// Every character key types its own character.
pub proof fn law_character_keys_type_themselves(ch: char, shift: bool)
    ensures
        command(shifted(KeyCode::Char(ch), shift)) == Command::Insert(ch),
{
}

/// The tab key types a tab.
pub proof fn law_tab_key_types_tab(shift: bool)
    ensures
        command(shifted(KeyCode::Tab, shift)) == Command::Insert('\t'),
{
}

/// Control makes commands of three characters, and nothing of any other.
pub proof fn law_control_makes_commands(ch: char)
    ensures
        command(control('q')) == Command::Quit,
        command(control('s')) == Command::Save,
        command(control('f')) == Command::Find,
        ch != 'q' && ch != 's' && ch != 'f' ==> command(control(ch)) == Command::Ignore,
{
}

/// What each key means that is pressed on its own and is no character.
pub proof fn law_keys_pressed_alone(number: u8)
    ensures
        command(alone(KeyCode::Left)) == Command::Move(KeyCode::Left),
        command(alone(KeyCode::Right)) == Command::Move(KeyCode::Right),
        command(alone(KeyCode::Up)) == Command::Move(KeyCode::Up),
        command(alone(KeyCode::Down)) == Command::Move(KeyCode::Down),
        command(alone(KeyCode::Home)) == Command::Move(KeyCode::Home),
        command(alone(KeyCode::End)) == Command::Move(KeyCode::End),
        command(alone(KeyCode::PageUp)) == Command::PageUp,
        command(alone(KeyCode::PageDown)) == Command::PageDown,
        command(alone(KeyCode::Backspace)) == Command::Backspace,
        command(alone(KeyCode::Delete)) == Command::Delete,
        command(alone(KeyCode::Enter)) == Command::Newline,
        command(alone(KeyCode::BackTab)) == Command::Ignore,
        command(alone(KeyCode::Insert)) == Command::Ignore,
        command(alone(KeyCode::Null)) == Command::Ignore,
        command(alone(KeyCode::Esc)) == Command::Ignore,
        command(alone(KeyCode::F(number))) == Command::Ignore,
{
}

/// Any other combination of keys means nothing.
pub proof fn law_other_combinations_mean_nothing(key: KeyEvent)
    requires
        ({
            ||| key.modifiers.alt
            ||| key.modifiers.control && key.modifiers.shift
            ||| key.modifiers.control && !(key.code is Char)
            ||| key.modifiers.shift && !(key.code is Char) && !(key.code is Tab)
        }),
    ensures
        command(key) == Command::Ignore,
{
}

/// A character key puts its character into the document, and can be pressed
/// whenever a character can be inserted.
pub proof fn law_character_key_inserts(editor: EditorView, ch: char, shift: bool)
    requires
        editor.output.prompt is None,
    ensures
        editor.accepts(shifted(KeyCode::Char(ch), shift)) <==> editor.output.can_insert_char(),
        editor.pressed(shifted(KeyCode::Char(ch), shift)) == (
            EditorView { output: attended(editor).insert_char(ch), quit_times: 1 },
            ActionView::Continue,
        ),
        editor.accepts(shifted(KeyCode::Tab, shift)) <==> editor.output.can_insert_char(),
        editor.pressed(shifted(KeyCode::Tab, shift)) == (
            EditorView { output: attended(editor).insert_char('\t'), quit_times: 1 },
            ActionView::Continue,
        ),
{
    law_character_keys_type_themselves(ch, shift);
    law_tab_key_types_tab(shift);
}

/// Enter breaks the row at the cursor.
pub proof fn law_enter_breaks_row(editor: EditorView)
    requires
        editor.output.prompt is None,
    ensures
        editor.accepts(alone(KeyCode::Enter)) <==> editor.output.can_insert_newline(),
        editor.pressed(alone(KeyCode::Enter)) == (
            EditorView { output: attended(editor).insert_newline(), quit_times: 1 },
            ActionView::Continue,
        ),
{
}

/// Backspace removes what stands before the cursor.
pub proof fn law_backspace_removes(editor: EditorView)
    requires
        editor.output.prompt is None,
    ensures
        editor.accepts(alone(KeyCode::Backspace)) <==> editor.output.can_delete_char(),
        editor.pressed(alone(KeyCode::Backspace)) == (
            EditorView { output: attended(editor).delete_char(), quit_times: 1 },
            ActionView::Continue,
        ),
{
}

/// A key that moves the cursor by a step changes nothing but the cursor's place.
pub proof fn law_direction_keys_move_cursor(editor: EditorView, code: KeyCode)
    requires
        editor.output.prompt is None,
        code is Left || code is Right || code is Up || code is Down || code is Home || code is End,
    ensures
        editor.accepts(alone(code)) <==> !(code is Left && editor.output.cursor.cursor_x == 0
            && editor.output.cursor.cursor_y > editor.output.rows.len()),
        editor.pressed(alone(code)) == (
            EditorView {
                output: OutputView {
                    cursor: editor.output.cursor.moved(code, editor.output.rows),
                    ..attended(editor)
                },
                quit_times: 1,
            },
            ActionView::Continue,
        ),
{
}

/// A key without a meaning does nothing but take back a request to quit.
pub proof fn law_meaningless_keys_do_nothing(editor: EditorView, key: KeyEvent)
    requires
        editor.output.prompt is None,
        command(key) is Ignore,
    ensures
        editor.accepts(key),
        editor.pressed(key) == (
            EditorView { output: attended(editor), quit_times: 1 },
            ActionView::Continue,
        ),
{
}

/// Asking to save writes the document as it is to its file. Without a file the
/// path is asked for, in a prompt that starts out empty.
pub proof fn law_control_s_saves(editor: EditorView)
    requires
        editor.output.prompt is None,
    ensures
        editor.accepts(control('s')),
        editor.output.filename matches Some(path) ==> editor.pressed(control('s')) == (
            EditorView { output: attended(editor), quit_times: 1 },
            ActionView::Save { path, contents: joined(editor.output.rows) },
        ),
        editor.output.filename is None ==> editor.pressed(control('s')) == (
            EditorView {
                output: OutputView {
                    prompt: Some(PromptView { kind: PromptKind::SaveAs, input: Seq::empty() }),
                    message: Some("Save as: "@),
                    ..editor.output
                },
                quit_times: 1,
            },
            ActionView::Continue,
        ),
{
    assert("Save as: "@ + Seq::empty() =~= "Save as: "@);
}

/// Asking to search opens a prompt that starts out empty, and moves nothing yet.
pub proof fn law_control_f_asks_for_text(editor: EditorView)
    requires
        editor.output.prompt is None,
    ensures
        editor.accepts(control('f')),
        editor.pressed(control('f')) == (
            EditorView {
                output: OutputView {
                    prompt: Some(PromptView { kind: PromptKind::Search, input: Seq::empty() }),
                    message: Some("Search: "@ + " (ESC to cancel)"@),
                    ..editor.output
                },
                quit_times: 1,
            },
            ActionView::Continue,
        ),
{
    assert("Search: "@ + Seq::empty() =~= "Search: "@);
}

/// Asking to quit is granted at once without unsaved changes, refused with a
/// warning while a refusal is left, and else granted along with the removal of
/// the document's file, which must be known.
pub proof fn law_control_q_quits(editor: EditorView)
    requires
        editor.output.prompt is None,
        editor.output.dirty >= 0,
        editor.quit_times >= 0,
    ensures
        editor.output.dirty == 0 ==> editor.accepts(control('q')) && editor.pressed(control('q'))
            == (editor, ActionView::Quit),
        editor.output.dirty > 0 && editor.quit_times > 0 ==> editor.accepts(control('q'))
            && editor.pressed(control('q')) == (
            EditorView {
                output: OutputView {
                    message: Some(
                        "File has unsaved changes. Press Ctrl-Q again to quit without saving."@,
                    ),
                    ..editor.output
                },
                quit_times: editor.quit_times - 1,
            },
            ActionView::Continue,
        ),
        editor.output.dirty > 0 && editor.quit_times == 0 ==> match editor.output.filename {
            Some(path) => editor.accepts(control('q')) && editor.pressed(control('q')) == (
                editor,
                ActionView::RemoveAndQuit(path),
            ),
            None => !editor.accepts(control('q')),
        },
{
}

/// The clock of the message starts anew exactly on the keys that set a message:
/// every key in a prompt, a key that takes a request to quit back, a refused
/// request to quit, and a command that opens a prompt.
pub proof fn law_clock_restarts_with_message(editor: EditorView, key: KeyEvent)
    requires
        editor.output.dirty >= 0,
        editor.quit_times >= 0,
    ensures
        editor.pressed(key).0.output.message != editor.output.message ==> editor.speaks(key),
        editor.output.prompt is Some ==> editor.speaks(key),
        editor.output.prompt is None && editor.quit_times != 1 && key != control('q')
            ==> editor.speaks(key),
        editor.output.prompt is None && editor.quit_times == 1 ==> (editor.speaks(key) <==> {
            ||| key == control('q') && editor.output.dirty > 0
            ||| key == control('s') && editor.output.filename is None
            ||| key == control('f')
        }),
        editor.output.prompt is None && key == control('q') ==> (editor.speaks(key) <==> {
            editor.output.dirty > 0 && editor.quit_times > 0
        }),
{
}

/// Reporting that the document was written makes it free of unsaved changes and
/// says how many bytes that took; nothing else changes.
pub proof fn law_saving_is_reported(editor: EditorView, bytes: nat)
    ensures
        editor.saved(bytes).quit_times == editor.quit_times,
        editor.saved(bytes).output == (OutputView {
            dirty: 0,
            message: Some(decimal(bytes) + " bytes written to disk"@),
            ..editor.output
        }),
{
}

} // verus!
