//! The editor: what each key press does, and what it asks of the outside world.

use crate::cursor::{is_direction, least, CursorView};
use crate::keys::{KeyCode, KeyEvent};
use crate::lines::{joined, lines};
use crate::output::{Output, OutputView, PromptKind, PromptOutcome, PromptOutcomeView};
use crate::rows::{EditorRows, SaveRequest, Source};
use crate::text::{decimal, decimal_text};
use vstd::prelude::*;

verus! {

/// What a key press means outside of a prompt.
#[derive(Clone, Copy, Debug, PartialEq, Eq, Structural)]
pub enum Command {
    Quit,
    Move(KeyCode),
    PageUp,
    PageDown,
    Save,
    Find,
    Backspace,
    Delete,
    Newline,
    Insert(char),
    Ignore,
}

/// What is to be done after a key press.
pub enum Action {
    /// Wait for the next key.
    Continue,
    /// End the program.
    Quit,
    /// Remove the named file and end the program.
    RemoveAndQuit(String),
    /// Write a file, and then report that to the editor.
    Save(SaveRequest),
}

/// The screen, and how many more times quitting is refused while there are
/// unsaved changes.
pub struct Editor {
    pub output: Output,
    pub quit_times: u8,
}

/// An [`Action`], with its texts as characters.
pub enum ActionView {
    Continue,
    Quit,
    RemoveAndQuit(Seq<char>),
    Save { path: Seq<char>, contents: Seq<char> },
}

/// An [`Editor`], with its screen as an [`OutputView`].
#[verifier::ext_equal]
pub struct EditorView {
    pub output: OutputView,
    pub quit_times: int,
}

impl View for Action {
    type V = ActionView;

    open spec fn view(&self) -> ActionView {
        match self {
            Action::Continue => ActionView::Continue,
            Action::Quit => ActionView::Quit,
            Action::RemoveAndQuit(path) => ActionView::RemoveAndQuit(path@),
            Action::Save(request) => ActionView::Save {
                path: request.path@,
                contents: request.contents@,
            },
        }
    }
}

impl View for Editor {
    type V = EditorView;

    open spec fn view(&self) -> EditorView {
        EditorView { output: self.output@, quit_times: self.quit_times as int }
    }
}

/// What `key` means outside of a prompt.
pub open spec fn command(key: KeyEvent) -> Command {
    let alone = key.modifiers.is_none();
    match key.code {
        KeyCode::Char('q') if key.modifiers.is_control() => Command::Quit,
        KeyCode::Char('s') if key.modifiers.is_control() => Command::Save,
        KeyCode::Char('f') if key.modifiers.is_control() => Command::Find,
        KeyCode::Char(ch) if key.modifiers.is_plain() => Command::Insert(ch),
        KeyCode::Tab if key.modifiers.is_plain() => Command::Insert('\t'),
        KeyCode::PageUp if alone => Command::PageUp,
        KeyCode::PageDown if alone => Command::PageDown,
        KeyCode::Backspace if alone => Command::Backspace,
        KeyCode::Delete if alone => Command::Delete,
        KeyCode::Enter if alone => Command::Newline,
        code => if alone && is_direction(code) {
            Command::Move(code)
        } else {
            Command::Ignore
        },
    }
}

impl Command {
    /// What `key` means outside of a prompt.
    pub fn of(key: KeyEvent) -> (meaning: Command)
        ensures
            meaning == command(key),
    {
        match key.code {
            KeyCode::Char(ch) => {
                if key.modifiers.is_control() && ch == 'q' {
                    Command::Quit
                } else if key.modifiers.is_control() && ch == 's' {
                    Command::Save
                } else if key.modifiers.is_control() && ch == 'f' {
                    Command::Find
                } else if key.modifiers.is_plain() {
                    Command::Insert(ch)
                } else {
                    Command::Ignore
                }
            },
            KeyCode::Tab => {
                if key.modifiers.is_plain() {
                    Command::Insert('\t')
                } else {
                    Command::Ignore
                }
            },
            code => {
                if !key.modifiers.is_none() {
                    return Command::Ignore;
                }
                match code {
                    KeyCode::PageUp => Command::PageUp,
                    KeyCode::PageDown => Command::PageDown,
                    KeyCode::Backspace => Command::Backspace,
                    KeyCode::Delete => Command::Delete,
                    KeyCode::Enter => Command::Newline,
                    KeyCode::Up | KeyCode::Down | KeyCode::Left | KeyCode::Right | KeyCode::Home
                    | KeyCode::End => Command::Move(code),
                    _ => Command::Ignore,
                }
            },
        }
    }
}

impl OutputView {
    /// The screen with another message.
    pub open spec fn saying(self, message: Seq<char>) -> OutputView {
        OutputView { message: Some(message), ..self }
    }

    /// The screen after a step of the cursor.
    pub open spec fn moved(self, direction: KeyCode) -> OutputView {
        OutputView { cursor: self.cursor.moved(direction, self.rows), ..self }
    }

    /// The screen after the cursor went to row `y` and from there took as many
    /// steps in `direction` as the window has lines.
    pub open spec fn paged(self, y: int, direction: KeyCode) -> OutputView {
        OutputView {
            cursor: (CursorView { cursor_y: y, ..self.cursor }).moved_times(
                direction,
                self.rows,
                self.win_size.1 as nat,
            ),
            ..self
        }
    }

    /// The last line of the window, or the line below the document if that comes
    /// first.
    pub open spec fn last_line(self) -> int {
        least(self.win_size.1 + self.cursor.row_offset - 1, self.rows.len() as int)
    }
}

impl EditorView {
    /// The editor as it starts on `source`: without rows for a new file, and with
    /// the lines of one that was read.
    pub open spec fn started(size: (u16, u16), source: Source) -> EditorView {
        EditorView {
            output: match source {
                Source::Unnamed => OutputView::started(size, seq![], None),
                Source::Created { path } => OutputView::started(size, seq![], Some(path@)),
                Source::Existing { path, text } => OutputView::started(
                    size,
                    lines(text@),
                    Some(path@),
                ),
            },
            quit_times: 1,
        }
    }

    /// The editor with another screen.
    pub open spec fn with(self, output: OutputView) -> EditorView {
        EditorView { output, ..self }
    }

    /// The editor after a request to quit is taken back.
    pub open spec fn cancel_quit(self) -> EditorView {
        EditorView { output: self.output.saying(Seq::empty()), quit_times: 1 }
    }

    /// The editor once `key` has shown that quitting was not meant: any key but
    /// the one that quits takes an earlier request back.
    pub open spec fn attentive(self, key: KeyEvent) -> EditorView {
        if !(command(key) is Quit) && self.quit_times != 1 {
            self.cancel_quit()
        } else {
            self
        }
    }

    /// The editor can act on `key`.
    pub open spec fn accepts(self, key: KeyEvent) -> bool {
        let output = self.output;
        output.prompt is Some || match command(key) {
            Command::Quit => output.dirty > 0 && self.quit_times == 0 ==> output.filename is Some,
            Command::Move(direction) => output.cursor.can_move(direction, output.rows),
            Command::PageDown => 1 <= output.win_size.1 + output.cursor.row_offset <= usize::MAX,
            Command::Backspace => output.can_delete_char(),
            Command::Delete => output.moved(KeyCode::Right).can_delete_char(),
            Command::Newline => output.can_insert_newline(),
            Command::Insert(_) => output.can_insert_char(),
            _ => true,
        }
    }

    /// A request to quit is refused: there are unsaved changes, and it is not
    /// repeated.
    pub open spec fn refuses_to_quit(self) -> bool {
        self.output.dirty > 0 && self.quit_times > 0
    }

    /// `key` sets a message, which then is as old as the key press. Any other key
    /// leaves the message and its time alone.
    pub open spec fn speaks(self, key: KeyEvent) -> bool {
        ||| self.output.prompt is Some
        ||| !(command(key) is Quit) && self.quit_times != 1
        ||| match command(key) {
            Command::Quit => self.refuses_to_quit(),
            Command::Save => self.output.filename is None,
            Command::Find => true,
            _ => false,
        }
    }

    /// The answer to a request to quit. With unsaved changes the first one is
    /// refused; the second one also removes the file.
    pub open spec fn quit(self) -> (EditorView, ActionView) {
        if self.refuses_to_quit() {
            (
                EditorView {
                    output: self.output.saying(
                        "File has unsaved changes. Press Ctrl-Q again to quit without saving."@,
                    ),
                    quit_times: self.quit_times - 1,
                },
                ActionView::Continue,
            )
        } else if self.output.dirty > 0 {
            (self, ActionView::RemoveAndQuit(self.output.filename->0))
        } else {
            (self, ActionView::Quit)
        }
    }

    /// The answer to a request to save: the document is to be written to its
    /// file, whose name is asked for first where there is none.
    pub open spec fn save(self) -> (EditorView, ActionView) {
        match self.output.filename {
            Some(path) => (
                self,
                ActionView::Save { path, contents: joined(self.output.rows) },
            ),
            None => (
                self.with(self.output.prompting(PromptKind::SaveAs, Seq::empty())),
                ActionView::Continue,
            ),
        }
    }

    /// What `key` makes of the open prompt. A path that was asked for becomes the
    /// name of the document's file, which is then written.
    pub open spec fn prompt_key(self, key: KeyEvent) -> (EditorView, ActionView) {
        let (output, outcome) = self.output.prompt_key(key);
        match (self.output.prompt->0.kind, outcome) {
            (PromptKind::SaveAs, PromptOutcomeView::Entered(path)) => self.with(
                OutputView { filename: Some(path), ..output },
            ).save(),
            (PromptKind::SaveAs, PromptOutcomeView::Cancelled) => (
                self.with(output.saying("Save canceled"@)),
                ActionView::Continue,
            ),
            _ => (self.with(output), ActionView::Continue),
        }
    }

    /// What `key` makes of the editor, and what is to be done then.
    pub open spec fn pressed(self, key: KeyEvent) -> (EditorView, ActionView) {
        let editor = self.attentive(key);
        let output = editor.output;
        if self.output.prompt is Some {
            self.prompt_key(key)
        } else {
            match command(key) {
                Command::Quit => editor.quit(),
                Command::Save => editor.save(),
                Command::Find => (
                    editor.with(output.prompting(PromptKind::Search, Seq::empty())),
                    ActionView::Continue,
                ),
                Command::Move(direction) => (
                    editor.with(output.moved(direction)),
                    ActionView::Continue,
                ),
                Command::PageUp => (
                    editor.with(output.paged(output.cursor.row_offset, KeyCode::Up)),
                    ActionView::Continue,
                ),
                Command::PageDown => (
                    editor.with(output.paged(output.last_line(), KeyCode::Down)),
                    ActionView::Continue,
                ),
                Command::Backspace => (editor.with(output.delete_char()), ActionView::Continue),
                Command::Delete => (
                    editor.with(output.moved(KeyCode::Right).delete_char()),
                    ActionView::Continue,
                ),
                Command::Newline => (editor.with(output.insert_newline()), ActionView::Continue),
                Command::Insert(ch) => (editor.with(output.insert_char(ch)), ActionView::Continue),
                Command::Ignore => (editor, ActionView::Continue),
            }
        }
    }

    /// The editor after its document was written, which took `bytes` bytes.
    pub open spec fn saved(self, bytes: nat) -> EditorView {
        self.with(
            OutputView {
                dirty: 0,
                ..self.output.saying(decimal(bytes) + " bytes written to disk"@)
            },
        )
    }
}

impl Editor {
    /// The screen is well-formed.
    pub open spec fn wf(&self) -> bool {
        self.output.wf()
    }

    /// The editor for a terminal with the given number of columns and lines,
    /// started on `source`.
    pub fn new(size: (u16, u16), source: Source) -> (editor: Self)
        requires
            size.1 >= 2,
        ensures
            editor.wf(),
            editor@ == EditorView::started(size, source),
            editor.output.status_message.just_set(),
    {
        let editor_rows = EditorRows::new(source);
        proof {
            if editor_rows@.len() == 0 {
                assert(editor_rows@ =~= seq![]);
            }
        }
        Editor { output: Output::new(size, editor_rows), quit_times: 1 }
    }

    /// Takes back a request to quit.
    pub fn cancel_quit(&mut self)
        requires
            old(self).wf(),
        ensures
            final(self).wf(),
            final(self)@ == old(self)@.cancel_quit(),
            final(self).output.status_message.just_set(),
    {
        self.quit_times = 1;
        self.output.status_message.set_message(String::new());
    }

    /// Whether the editor can act on `key`.
    pub fn accepts(&self, key: KeyEvent) -> (yes: bool)
        requires
            self.wf(),
        ensures
            yes == self@.accepts(key),
    {
        if self.output.prompt.is_some() {
            return true;
        }
        let cursor = self.output.cursor_controller;
        match Command::of(key) {
            Command::Quit => self.output.dirty == 0 || self.quit_times != 0
                || self.output.editor_rows.filename.is_some(),
            Command::Move(direction) => match direction {
                KeyCode::Left => cursor.cursor_x != 0 || cursor.cursor_y
                    <= self.output.editor_rows.number_of_rows(),
                _ => true,
            },
            Command::PageDown => match self.output.win_size.1.checked_add(cursor.row_offset) {
                Some(end) => end >= 1,
                None => false,
            },
            Command::Backspace => self.output.may_delete_char(cursor),
            Command::Delete => {
                let mut next = cursor;
                next.move_cursor(KeyCode::Right, &self.output.editor_rows);
                self.output.may_delete_char(next)
            },
            Command::Newline => self.output.may_insert_newline(),
            Command::Insert(_) => self.output.may_insert_char(),
            _ => true,
        }
    }

    /// Acts on a key press, and tells what is to be done then.
    pub fn process_keypress(&mut self, key: KeyEvent) -> (action: Action)
        requires
            old(self).wf(),
            old(self)@.accepts(key),
        ensures
            final(self).wf(),
            (final(self)@, action@) == old(self)@.pressed(key),
            if old(self)@.speaks(key) {
                final(self).output.status_message.just_set()
            } else {
                final(self).output.status_message == old(self).output.status_message
            },
    {
        if self.output.prompt.is_some() {
            return self.process_prompt(key);
        }
        let meaning = Command::of(key);
        if meaning != Command::Quit && self.quit_times != 1 {
            self.cancel_quit();
        }
        match meaning {
            Command::Quit => return self.quit(),
            Command::Save => return self.save(),
            Command::Find => self.output.find(),
            Command::Move(direction) => self.output.move_cursor(direction),
            Command::PageUp => {
                let y = self.output.cursor_controller.row_offset;
                self.page(y, KeyCode::Up);
            },
            Command::PageDown => {
                let end = self.output.win_size.1 + self.output.cursor_controller.row_offset - 1;
                let number_of_rows = self.output.editor_rows.number_of_rows();
                let y = if end <= number_of_rows {
                    end
                } else {
                    number_of_rows
                };
                self.page(y, KeyCode::Down);
            },
            Command::Backspace => self.output.delete_char(),
            Command::Delete => {
                self.output.move_cursor(KeyCode::Right);
                self.output.delete_char();
            },
            Command::Newline => self.output.insert_newline(),
            Command::Insert(ch) => self.output.insert_char(ch),
            Command::Ignore => {},
        }
        Action::Continue
    }

    /// Answers a request to quit.
    fn quit(&mut self) -> (action: Action)
        requires
            old(self).wf(),
            old(self)@.output.dirty > 0 && old(self)@.quit_times == 0
                ==> old(self)@.output.filename is Some,
        ensures
            final(self).wf(),
            (final(self)@, action@) == old(self)@.quit(),
            if old(self)@.refuses_to_quit() {
                final(self).output.status_message.just_set()
            } else {
                final(self).output.status_message == old(self).output.status_message
            },
    {
        if self.output.dirty > 0 && self.quit_times > 0 {
            self.output.status_message.set_message(
                "File has unsaved changes. Press Ctrl-Q again to quit without saving.".to_owned(),
            );
            self.quit_times -= 1;
            return Action::Continue;
        }
        if self.output.dirty > 0 {
            if let Some(path) = &self.output.editor_rows.filename {
                return Action::RemoveAndQuit(path.clone());
            }
        }
        Action::Quit
    }

    /// Answers a request to save.
    fn save(&mut self) -> (action: Action)
        requires
            old(self).wf(),
        ensures
            final(self).wf(),
            (final(self)@, action@) == old(self)@.save(),
            if old(self)@.output.filename is None {
                final(self).output.status_message.just_set()
            } else {
                final(self).output.status_message == old(self).output.status_message
            },
    {
        match self.output.editor_rows.save() {
            Ok(request) => Action::Save(request),
            Err(_) => {
                self.output.open_prompt(PromptKind::SaveAs);
                Action::Continue
            },
        }
    }

    /// Hands a key press to the open prompt.
    fn process_prompt(&mut self, key: KeyEvent) -> (action: Action)
        requires
            old(self).wf(),
            old(self)@.output.prompt is Some,
        ensures
            final(self).wf(),
            (final(self)@, action@) == old(self)@.prompt_key(key),
            final(self).output.status_message.just_set(),
    {
        let saving = match &self.output.prompt {
            Some(prompt) => prompt.kind == PromptKind::SaveAs,
            None => false,
        };
        match self.output.prompt_key(key) {
            PromptOutcome::Pending => Action::Continue,
            PromptOutcome::Cancelled => {
                if saving {
                    self.output.status_message.set_message("Save canceled".to_owned());
                }
                Action::Continue
            },
            PromptOutcome::Entered(path) => {
                if saving {
                    self.output.editor_rows.filename = Some(path);
                    self.save()
                } else {
                    Action::Continue
                }
            },
        }
    }

    /// Puts the cursor on row `y`, and moves it by the height of the window.
    fn page(&mut self, y: usize, direction: KeyCode)
        requires
            old(self).wf(),
            direction is Up || direction is Down,
        ensures
            final(self).wf(),
            final(self)@ == old(self)@.with(old(self)@.output.paged(y as int, direction)),
            final(self).output.status_message == old(self).output.status_message,
    {
        self.output.cursor_controller.cursor_y = y;
        let ghost start = self.output@;
        let height = self.output.win_size.1;
        let ghost quit_times = self.quit_times;
        for i in 0..height
            invariant
                self.wf(),
                self.quit_times == quit_times,
                self.output.status_message == old(self).output.status_message,
                direction is Up || direction is Down,
                self.output@ == (OutputView {
                    cursor: start.cursor.moved_times(direction, start.rows, i as nat),
                    ..start
                }),
        {
            self.output.move_cursor(direction);
        }
    }

    /// Reports that the document was written, which took `bytes` bytes.
    pub fn saved(&mut self, bytes: usize)
        requires
            old(self).wf(),
        ensures
            final(self).wf(),
            final(self)@ == old(self)@.saved(bytes as nat),
            final(self).output.status_message.just_set(),
    {
        let mut message = decimal_text(bytes);
        message.append(" bytes written to disk");
        self.output.status_message.set_message(message);
        self.output.dirty = 0;
    }
}

} // verus!
