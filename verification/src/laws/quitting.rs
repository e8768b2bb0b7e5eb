//! Laws of how the editor is left.

use crate::editor::{command, ActionView, EditorView};
use crate::keys::KeyEvent;
use crate::lines::joined;
use crate::output::OutputView;
use vstd::prelude::*;

verus! {

/// Whether an action ends the program.
pub open spec fn ends_program(action: ActionView) -> bool {
    action is Quit || action is RemoveAndQuit
}

/// Nothing ends the program but a request to quit outside of a prompt.
pub proof fn law_only_quitting_ends_program(editor: EditorView, key: KeyEvent)
    requires
        ends_program(editor.pressed(key).1),
    ensures
        command(key) is Quit,
        editor.output.prompt is None,
{
}

/// Without unsaved changes the first request to quit is granted, and no file is
/// removed.
pub proof fn law_saved_document_can_be_left(editor: EditorView, key: KeyEvent)
    requires
        command(key) is Quit,
        editor.output.prompt is None,
        editor.output.dirty == 0,
    ensures
        editor.accepts(key),
        editor.pressed(key).1 is Quit,
{
}

/// With unsaved changes a request to quit is refused the first time. The
/// document stays as it is, and the message says what to do.
pub proof fn law_unsaved_changes_refuse_first_quit(editor: EditorView, key: KeyEvent)
    requires
        command(key) is Quit,
        editor.output.prompt is None,
        editor.output.dirty > 0,
        editor.quit_times == 1,
    ensures
        editor.accepts(key),
        editor.pressed(key).1 is Continue,
        editor.pressed(key).0.quit_times == 0,
        editor.pressed(key).0.output == (OutputView {
            message: Some(
                "File has unsaved changes. Press Ctrl-Q again to quit without saving."@,
            ),
            ..editor.output
        }),
{
}

/// The second request to quit in a row is granted, and removes the document's
/// file, which must be known.
pub proof fn law_second_quit_removes_file(editor: EditorView, key: KeyEvent)
    requires
        command(key) is Quit,
        editor.output.prompt is None,
        editor.output.dirty > 0,
        editor.quit_times == 1,
    ensures
        ({
            let asked = editor.pressed(key).0;
            &&& asked.accepts(key) <==> editor.output.filename is Some
            &&& editor.output.filename matches Some(path) ==> asked.pressed(key)
                == (asked, ActionView::RemoveAndQuit(path))
        }),
{
}

/// Any other key between the two requests takes the first one back.
pub proof fn law_other_key_takes_quit_back(editor: EditorView, key: KeyEvent)
    requires
        !(command(key) is Quit),
        editor.output.prompt is None,
    ensures
        editor.pressed(key).0.quit_times == 1,
{
}

/// There is never more than one refusal left.
pub proof fn law_at_most_one_refusal(editor: EditorView, key: KeyEvent)
    requires
        0 <= editor.quit_times <= 1,
    ensures
        0 <= editor.pressed(key).0.quit_times <= 1,
{
}

/// Unsaved changes are given up only on a request to quit that follows upon
/// another one: no other key leads to a state that grants it.
pub proof fn law_unsaved_changes_are_given_up_only_on_second_quit(
    editor: EditorView,
    first: KeyEvent,
    second: KeyEvent,
)
    requires
        editor.quit_times == 1,
        ends_program(editor.pressed(first).0.pressed(second).1),
        editor.pressed(first).0.output.dirty > 0,
    ensures
        command(first) is Quit,
        command(second) is Quit,
{
}

/// A document that was just saved can be left at once.
pub proof fn law_document_can_be_left_after_saving(editor: EditorView, bytes: nat, key: KeyEvent)
    requires
        command(key) is Quit,
        editor.output.prompt is None,
    ensures
        editor.saved(bytes).pressed(key).1 is Quit,
{
}

/// Saving writes the rows with a line feed between each two to the document's
/// file, and happens only when there is one.
pub proof fn law_document_is_saved_to_its_file(editor: EditorView, key: KeyEvent)
    requires
        editor.pressed(key).1 is Save,
    ensures
        editor.pressed(key).0.output.filename == Some(editor.pressed(key).1->path),
        editor.pressed(key).1->contents == joined(editor.output.rows),
        editor.pressed(key).0.output.rows == editor.output.rows,
{
}

/// A document with a file is saved at once when asked to.
pub proof fn law_named_document_is_saved_at_once(editor: EditorView, key: KeyEvent)
    requires
        command(key) is Save,
        editor.output.prompt is None,
        editor.output.filename is Some,
    ensures
        editor.accepts(key),
        editor.pressed(key).1 == (ActionView::Save {
            path: editor.output.filename->0,
            contents: joined(editor.output.rows),
        }),
{
}

/// No key press lowers the count of changes, and none changes the rows without
/// raising it. So a document without unsaved changes is the one that was read or
/// saved last.
pub proof fn law_changes_are_counted(editor: EditorView, key: KeyEvent)
    requires
        editor.accepts(key),
    ensures
        editor.pressed(key).0.output.dirty >= editor.output.dirty,
        editor.pressed(key).0.output.rows != editor.output.rows ==> editor.pressed(
            key,
        ).0.output.dirty > editor.output.dirty,
{
}

} // verus!
