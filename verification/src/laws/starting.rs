//! Laws of the editor as it starts, and of the steps that larger ones consist of.

use crate::cursor::CursorView;
use crate::editor::EditorView;
use crate::keys::{KeyCode, KeyEvent};
use crate::laws::commands::alone;
use crate::laws::searching::{ends_prompt, question};
use crate::lines::lines;
use crate::output::{OutputView, PromptKind, PromptOutcomeView, PromptView};
use crate::rows::Source;
use vstd::prelude::*;

verus! {

/// The editor starts with the rows of its file, if that holds any, and with the
/// cursor and the window at the start of the document. Two lines of the terminal
/// are kept free below the window. There are no changes, one request to quit will
/// be refused once there are, and the message line names the three commands.
pub proof fn law_editor_starts_at_the_top(size: (u16, u16), source: Source)
    ensures
        ({
            let editor = EditorView::started(size, source);
            let (rows, filename) = match source {
                Source::Unnamed => (Seq::empty(), None),
                Source::Created { path } => (Seq::empty(), Some(path@)),
                Source::Existing { path, text } => (lines(text@), Some(path@)),
            };
            &&& editor.quit_times == 1
            &&& editor.output == OutputView {
                win_size: (size.0 as int, size.1 - 2),
                contents: Seq::empty(),
                cursor: CursorView {
                    cursor_x: 0,
                    cursor_y: 0,
                    screen_columns: size.0 as int,
                    screen_rows: size.1 - 2,
                    row_offset: 0,
                    columns_offset: 0,
                    render_x: 0,
                },
                rows,
                filename,
                message: Some("Help: Ctrl-Q to Quit | Ctrl-S to save | Ctrl-F to search"@),
                dirty: 0,
                prompt: None,
            }
            &&& OutputView::started(size, rows, filename) == editor.output
        }),
{
}

/// Taking back a request to quit empties the message line and leaves one refusal,
/// and nothing else changes.
pub proof fn law_quitting_is_taken_back(editor: EditorView)
    ensures
        editor.cancel_quit() == (EditorView {
            output: OutputView { message: Some(Seq::empty()), ..editor.output },
            quit_times: 1,
        }),
{
}

/// Opening a prompt shows its question, and changes nothing but that.
pub proof fn law_prompt_is_opened(output: OutputView, kind: PromptKind, input: Seq<char>)
    ensures
        output.prompting(kind, input) == (OutputView {
            prompt: Some(PromptView { kind, input }),
            message: Some(question(kind, input)),
            ..output
        }),
{
}

/// Escape cancels a prompt. Enter, pressed alone, ends it with what was typed, if
/// anything was. Every other key leaves it open.
pub proof fn law_prompt_has_outcome(output: OutputView, key: KeyEvent)
    requires
        output.prompt is Some,
    ensures
        ({
            let (pressed, outcome) = output.prompt_key(key);
            let input = output.prompt->0.input;
            let closed = OutputView { prompt: None, message: Some(Seq::empty()), ..output };
            &&& key.code is Esc ==> outcome is Cancelled && pressed == closed
            &&& key == alone(KeyCode::Enter) && input.len() > 0 ==> outcome
                == PromptOutcomeView::Entered(input) && pressed == closed
            &&& !ends_prompt(input, key) ==> outcome is Pending && pressed.prompt is Some
        }),
{
}

/// What is composed is appended to what is already on its way to the terminal, and
/// nothing else changes.
pub proof fn law_text_is_appended(output: OutputView, text: Seq<char>)
    ensures
        output.sending(text) == (OutputView { contents: output.contents + text, ..output }),
{
}

/// Drawing the message line sends it, and forgets a message that is older than
/// five seconds.
pub proof fn law_message_line_is_drawn(output: OutputView, age: u128)
    ensures
        output.message_drawn(age) == (OutputView {
            contents: output.contents + output.message_bar(age),
            message: if age > 5_000_000_000 {
                None
            } else {
                output.message
            },
            ..output
        }),
{
}

/// What a key modifier test tells.
pub proof fn law_modifiers_are_told_apart(key: KeyEvent)
    ensures
        key.modifiers.is_none() <==> !key.modifiers.shift && !key.modifiers.control
            && !key.modifiers.alt,
        key.modifiers.is_control() <==> !key.modifiers.shift && key.modifiers.control
            && !key.modifiers.alt,
        key.modifiers.is_plain() <==> !key.modifiers.control && !key.modifiers.alt,
{
}

} // verus!
