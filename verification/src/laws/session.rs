//! Laws of whole sessions: drawing the screen and pressing a key, again and again.

use crate::editor::{ActionView, EditorView};
use crate::keys::KeyEvent;
use crate::laws::quitting::law_changes_are_counted;
use crate::laws::soundness::{
    followed, law_drawing_keeps_editor_sound, law_keys_keep_editor_sound, sound, types_ascii,
};
use crate::output::OutputView;
use crate::text::byte_len;
use vstd::prelude::*;

verus! {

/// One turn of a session: the screen is drawn, with the file name and the age of
/// the message as they are then, and a key is pressed.
pub struct Turn {
    pub name: Option<Seq<char>>,
    pub age: u128,
    pub key: KeyEvent,
}

/// The editor once the screen has been drawn and sent.
pub open spec fn drawn(editor: EditorView, turn: Turn) -> EditorView {
    editor.with(
        OutputView {
            contents: Seq::empty(),
            ..editor.output.refreshed(turn.name, turn.age)
        },
    )
}

/// The editor after a turn. A document that is to be saved has been written by
/// then, and the editor has been told so.
pub open spec fn after_turn(editor: EditorView, turn: Turn) -> EditorView {
    let (pressed, action) = drawn(editor, turn).pressed(turn.key);
    match action {
        ActionView::Save { path, contents } => pressed.saved(byte_len(contents)),
        _ => pressed,
    }
}

/// The rows that were read or written last, if `rows` were before this turn.
pub open spec fn kept_rows(
    editor: EditorView,
    rows: Seq<Seq<char>>,
    turn: Turn,
) -> Seq<Seq<char>> {
    let (pressed, action) = drawn(editor, turn).pressed(turn.key);
    if action is Save {
        pressed.output.rows
    } else {
        rows
    }
}

/// The editor after a session.
pub open spec fn after_session(editor: EditorView, turns: Seq<Turn>) -> EditorView
    decreases turns.len(),
{
    if turns.len() == 0 {
        editor
    } else {
        after_turn(after_session(editor, turns.drop_last()), turns.last())
    }
}

/// The rows that were read or written last, after a session that began with
/// `rows`.
pub open spec fn kept_rows_after(
    editor: EditorView,
    rows: Seq<Seq<char>>,
    turns: Seq<Turn>,
) -> Seq<Seq<char>>
    decreases turns.len(),
{
    if turns.len() == 0 {
        rows
    } else {
        kept_rows(
            after_session(editor, turns.drop_last()),
            kept_rows_after(editor, rows, turns.drop_last()),
            turns.last(),
        )
    }
}

/// The editor can act on each key of a session.
pub open spec fn can_play(editor: EditorView, turns: Seq<Turn>) -> bool
    decreases turns.len(),
{
    turns.len() == 0 || {
        &&& can_play(editor, turns.drop_last())
        &&& drawn(after_session(editor, turns.drop_last()), turns.last()).accepts(turns.last().key)
    }
}

/// A session that starts with a sound editor and types nothing but ASCII leaves
/// the editor sound: the document stays ASCII, and the cursor stays in it.
pub proof fn law_session_keeps_editor_sound(editor: EditorView, turns: Seq<Turn>)
    requires
        sound(editor.output),
        can_play(editor, turns),
        forall|i: int| 0 <= i < turns.len() ==> types_ascii((#[trigger] turns[i]).key),
    ensures
        sound(after_session(editor, turns).output),
    decreases turns.len(),
{
    if turns.len() > 0 {
        let init = turns.drop_last();
        let turn = turns.last();
        assert forall|i: int| 0 <= i < init.len() implies types_ascii((#[trigger] init[i]).key) by {
            assert(init[i] == turns[i]);
        }
        assert(turn == turns[turns.len() - 1]);
        law_session_keeps_editor_sound(editor, init);
        let before = after_session(editor, init);
        law_drawing_keeps_editor_sound(before.output, turn.name, turn.age);
        assert(sound(drawn(before, turn).output));
        assert(followed(drawn(before, turn).output));
        law_keys_keep_editor_sound(drawn(before, turn), turn.key);
    }
}

/// A document that has no unsaved changes is the one that was read or written
/// last: no session leads to a state where they differ and no change is counted.
pub proof fn law_document_without_changes_is_the_kept_one(
    editor: EditorView,
    rows: Seq<Seq<char>>,
    turns: Seq<Turn>,
)
    requires
        editor.output.dirty >= 0,
        editor.output.dirty == 0 ==> editor.output.rows == rows,
        can_play(editor, turns),
    ensures
        after_session(editor, turns).output.dirty >= 0,
        after_session(editor, turns).output.dirty == 0 ==> after_session(editor, turns).output.rows
            == kept_rows_after(editor, rows, turns),
    decreases turns.len(),
{
    if turns.len() > 0 {
        let turn = turns.last();
        law_document_without_changes_is_the_kept_one(editor, rows, turns.drop_last());
        let before = after_session(editor, turns.drop_last());
        law_changes_are_counted(drawn(before, turn), turn.key);
    }
}

} // verus!
