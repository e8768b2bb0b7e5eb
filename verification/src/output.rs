//! The editor's screen: the document, the cursor in it, and what has been typed
//! into a prompt.

use crate::columns::{covering, shown};
use crate::contents::EditorContents;
use crate::cursor::{CursorController, CursorView};
use crate::keys::{KeyCode, KeyEvent};
use crate::row::{with_char, without_char};
use crate::rows::EditorRows;
use crate::status::StatusMessage;
use crate::text::{
    after, at_boundary, before, byte_len, find_text, first_match, lemma_chars_within_bytes,
    lemma_encode_concat, lemma_ends, lemma_halves, on_boundary, split_text, text_len,
};
use vstd::prelude::*;

verus! {

/// What a prompt asks for.
#[derive(Clone, Copy, Debug, PartialEq, Eq, Structural)]
pub enum PromptKind {
    /// The path to save the document under.
    SaveAs,
    /// The text to look for.
    Search,
}

/// A question in the message line, and what has been typed in reply.
pub struct Prompt {
    pub kind: PromptKind,
    pub input: String,
}

/// What a key press makes of a prompt.
pub enum PromptOutcome {
    /// It stays open.
    Pending,
    /// It was left without a reply.
    Cancelled,
    /// The reply.
    Entered(String),
}

/// The window, the document and the state of editing it.
pub struct Output {
    pub win_size: (usize, usize),
    pub editor_contents: EditorContents,
    pub cursor_controller: CursorController,
    pub editor_rows: EditorRows,
    pub status_message: StatusMessage,
    pub dirty: u64,
    pub prompt: Option<Prompt>,
}

/// A [`Prompt`], with its input as characters.
pub struct PromptView {
    pub kind: PromptKind,
    pub input: Seq<char>,
}

/// A [`PromptOutcome`], with its reply as characters.
pub enum PromptOutcomeView {
    Pending,
    Cancelled,
    Entered(Seq<char>),
}

/// An [`Output`], with its texts as characters and its counters as integers.
#[verifier::ext_equal]
pub struct OutputView {
    pub win_size: (int, int),
    pub contents: Seq<char>,
    pub cursor: CursorView,
    pub rows: Seq<Seq<char>>,
    pub filename: Option<Seq<char>>,
    pub message: Option<Seq<char>>,
    pub dirty: int,
    pub prompt: Option<PromptView>,
}

impl View for PromptOutcome {
    type V = PromptOutcomeView;

    open spec fn view(&self) -> PromptOutcomeView {
        match self {
            PromptOutcome::Pending => PromptOutcomeView::Pending,
            PromptOutcome::Cancelled => PromptOutcomeView::Cancelled,
            PromptOutcome::Entered(text) => PromptOutcomeView::Entered(text@),
        }
    }
}

impl View for Output {
    type V = OutputView;

    open spec fn view(&self) -> OutputView {
        OutputView {
            win_size: (self.win_size.0 as int, self.win_size.1 as int),
            contents: self.editor_contents@,
            cursor: self.cursor_controller@,
            rows: self.editor_rows@,
            filename: self.editor_rows.path(),
            message: self.status_message@,
            dirty: self.dirty as int,
            prompt: match self.prompt {
                Some(prompt) => Some(PromptView { kind: prompt.kind, input: prompt.input@ }),
                None => None,
            },
        }
    }
}

/// The message that the editor starts with.
pub open spec fn help_message() -> Seq<char> {
    "Help: Ctrl-Q to Quit | Ctrl-S to save | Ctrl-F to search"@
}

impl PromptKind {
    /// The message line that shows the prompt with `input` typed in.
    pub open spec fn line(self, input: Seq<char>) -> Seq<char> {
        match self {
            PromptKind::SaveAs => "Save as: "@ + input,
            PromptKind::Search => "Search: "@ + input + " (ESC to cancel)"@,
        }
    }
}

/// The first row at or after `from` whose shown text has `word` in it.
pub open spec fn row_with(rows: Seq<Seq<char>>, word: Seq<char>, from: int) -> Option<int>
    decreases rows.len() - from,
{
    if from >= rows.len() {
        None
    } else if first_match(shown(rows[from]), word) is Some {
        Some(from)
    } else {
        row_with(rows, word, from + 1)
    }
}

/// The byte offset at which `word` first stands in `text`, which has it.
pub open spec fn match_offset(text: Seq<char>, word: Seq<char>) -> nat {
    byte_len(text.take(first_match(text, word)->0))
}

impl OutputView {
    /// The screen that the editor starts with, on a terminal with the given number
    /// of columns and lines: the cursor at the start of the document, and the help
    /// message. Two lines are kept for the status bar and the message line.
    pub open spec fn started(
        size: (u16, u16),
        rows: Seq<Seq<char>>,
        filename: Option<Seq<char>>,
    ) -> OutputView {
        OutputView {
            win_size: (size.0 as int, size.1 - 2),
            contents: Seq::empty(),
            cursor: CursorView {
                cursor_x: 0,
                cursor_y: 0,
                screen_columns: size.0 as int,
                screen_rows: size.1 - 2,
                row_offset: 0,
                columns_offset: 0,
                render_x: 0,
            },
            rows,
            filename,
            message: Some(help_message()),
            dirty: 0,
            prompt: None,
        }
    }

    /// The cursor knows the size of the window.
    pub open spec fn windowed(self) -> bool {
        &&& self.win_size.0 == self.cursor.screen_columns
        &&& self.win_size.1 == self.cursor.screen_rows
    }

    /// The cursor stands in the document, not inside a character: in a row, or
    /// at the start of the line below the last one.
    pub open spec fn cursor_in_text(self) -> bool {
        let x = self.cursor.cursor_x;
        let y = self.cursor.cursor_y;
        if y < self.rows.len() {
            0 <= y && on_boundary(self.rows[y], x)
        } else {
            y == self.rows.len() && x == 0
        }
    }

    /// A character may be typed: the cursor stands in the document, and the
    /// change can be counted.
    pub open spec fn can_insert_char(self) -> bool {
        &&& self.cursor_in_text()
        &&& self.dirty + self.changes_of_insert() <= u64::MAX
    }

    /// How many changes typing a character counts for: one more below the last
    /// row, where a row is added for it.
    pub open spec fn changes_of_insert(self) -> int {
        if self.cursor.cursor_y == self.rows.len() {
            2
        } else {
            1
        }
    }

    /// The screen after `ch` is typed. The cursor goes on by one byte.
    pub open spec fn insert_char(self, ch: char) -> OutputView {
        let x = self.cursor.cursor_x;
        let y = self.cursor.cursor_y;
        let rows = if y == self.rows.len() {
            self.rows.push(Seq::empty())
        } else {
            self.rows
        };
        OutputView {
            rows: rows.update(y, with_char(rows[y], x, ch)),
            cursor: CursorView { cursor_x: x + 1, ..self.cursor },
            dirty: self.dirty + self.changes_of_insert(),
            ..self
        }
    }

    /// The character before the cursor may be removed: there is one, or a row
    /// above, or the cursor stands below the last row.
    pub open spec fn can_delete_char(self) -> bool {
        let x = self.cursor.cursor_x;
        let y = self.cursor.cursor_y;
        if y < self.rows.len() {
            &&& self.dirty < u64::MAX
            &&& if x > 0 {
                on_boundary(self.rows[y], x - 1) && x - 1 < byte_len(self.rows[y])
            } else {
                y > 0
            }
        } else {
            y == self.rows.len()
        }
    }

    /// The screen after what stands before the cursor is removed: a character,
    /// or the break between the cursor's row and the one above.
    pub open spec fn delete_char(self) -> OutputView {
        let x = self.cursor.cursor_x;
        let y = self.cursor.cursor_y;
        if y == self.rows.len() {
            self
        } else if x > 0 {
            OutputView {
                rows: self.rows.update(y, without_char(self.rows[y], x - 1)),
                cursor: CursorView { cursor_x: x - 1, ..self.cursor },
                dirty: self.dirty + 1,
                ..self
            }
        } else {
            OutputView {
                rows: self.rows.remove(y).update(y - 1, self.rows[y - 1] + self.rows[y]),
                cursor: CursorView {
                    cursor_x: byte_len(self.rows[y - 1]) as int,
                    cursor_y: y - 1,
                    ..self.cursor
                },
                dirty: self.dirty + 1,
                ..self
            }
        }
    }

    /// A row may be broken at the cursor: the cursor stands in the document.
    pub open spec fn can_insert_newline(self) -> bool {
        let x = self.cursor.cursor_x;
        let y = self.cursor.cursor_y;
        &&& self.dirty < u64::MAX
        &&& if x == 0 {
            y <= self.rows.len()
        } else {
            y < self.rows.len() && on_boundary(self.rows[y], x)
        }
    }

    /// The screen after the cursor's row is broken at the cursor. At the start of
    /// a row that adds an empty row above it.
    pub open spec fn insert_newline(self) -> OutputView {
        let x = self.cursor.cursor_x;
        let y = self.cursor.cursor_y;
        OutputView {
            rows: if x == 0 {
                self.rows.insert(y, Seq::empty())
            } else {
                self.rows.update(y, before(self.rows[y], x)).insert(y + 1, after(self.rows[y], x))
            },
            cursor: CursorView { cursor_x: 0, cursor_y: y + 1, ..self.cursor },
            dirty: self.dirty + 1,
            ..self
        }
    }

    /// The screen with the cursor put on the first place where `keyword` is
    /// shown, and the window set to begin below the document, so that it will
    /// follow the cursor upwards. Nothing changes where `keyword` is not shown.
    pub open spec fn found(self, keyword: Seq<char>) -> OutputView {
        match row_with(self.rows, keyword, 0) {
            Some(y) => OutputView {
                cursor: CursorView {
                    cursor_x: covering(
                        self.rows[y],
                        match_offset(shown(self.rows[y]), keyword),
                    ),
                    cursor_y: y,
                    row_offset: self.rows.len() as int,
                    ..self.cursor
                },
                ..self
            },
            None => self,
        }
    }

    /// The screen with a prompt of the given kind and its message line.
    pub open spec fn prompting(self, kind: PromptKind, input: Seq<char>) -> OutputView {
        OutputView {
            prompt: Some(PromptView { kind, input }),
            message: Some(kind.line(input)),
            ..self
        }
    }

    /// The screen with the prompt gone and its message line emptied.
    pub open spec fn prompt_closed(self) -> OutputView {
        OutputView { prompt: None, message: Some(Seq::empty()), ..self }
    }

    /// What has been typed into the prompt once `key` is pressed.
    pub open spec fn typed(input: Seq<char>, key: KeyEvent) -> Seq<char> {
        let erases = key.modifiers.is_none() && input.len() > 0;
        match key.code {
            KeyCode::Backspace if erases => input.drop_last(),
            KeyCode::Delete if erases => input.drop_last(),
            KeyCode::Char(ch) if key.modifiers.is_plain() => input.push(ch),
            KeyCode::Tab if key.modifiers.is_plain() => input.push('\t'),
            _ => input,
        }
    }

    /// What a key press makes of an open prompt. Escape leaves it, and enter ends
    /// it once something has been typed. Any other key may change the input; a
    /// search then goes on with the new one.
    pub open spec fn prompt_key(self, key: KeyEvent) -> (OutputView, PromptOutcomeView) {
        let prompt = self.prompt->0;
        let input = Self::typed(prompt.input, key);
        if key.code is Esc {
            (self.prompt_closed(), PromptOutcomeView::Cancelled)
        } else if key.code is Enter && key.modifiers.is_none() && prompt.input.len() > 0 {
            (self.prompt_closed(), PromptOutcomeView::Entered(prompt.input))
        } else if prompt.kind is Search && !(key.code is Enter) {
            (self.found(input).prompting(prompt.kind, input), PromptOutcomeView::Pending)
        } else {
            (self.prompting(prompt.kind, input), PromptOutcomeView::Pending)
        }
    }
}

impl Output {
    /// The parts of the screen are well-formed, and agree on the window's size.
    pub open spec fn wf(&self) -> bool {
        &&& self.editor_rows.wf()
        &&& self.status_message.wf()
        &&& self@.windowed()
    }

    /// The screen for a terminal with the given number of columns and lines. Two
    /// lines are kept for the status bar and the message line.
    pub fn new(size: (u16, u16), editor_rows: EditorRows) -> (output: Self)
        requires
            size.1 >= 2,
            editor_rows.wf(),
        ensures
            output.wf(),
            output@ == OutputView::started(size, editor_rows@, editor_rows.path()),
            output.status_message.just_set(),
    {
        let win_size = (size.0 as usize, size.1 as usize - 2);
        Output {
            win_size,
            editor_contents: EditorContents::new(),
            cursor_controller: CursorController::new(win_size),
            editor_rows,
            status_message: StatusMessage::new(
                "Help: Ctrl-Q to Quit | Ctrl-S to save | Ctrl-F to search".to_owned(),
            ),
            dirty: 0,
            prompt: None,
        }
    }

    /// Moves the cursor by one step.
    pub fn move_cursor(&mut self, direction: KeyCode)
        requires
            old(self).wf(),
            old(self)@.cursor.can_move(direction, old(self)@.rows),
        ensures
            final(self).wf(),
            final(self)@ == (OutputView {
                cursor: old(self)@.cursor.moved(direction, old(self)@.rows),
                ..old(self)@
            }),
            final(self).status_message == old(self).status_message,
    {
        self.cursor_controller.move_cursor(direction, &self.editor_rows);
    }

    /// Whether a character may be typed at the cursor.
    pub fn may_insert_char(&self) -> (yes: bool)
        ensures
            yes == self@.can_insert_char(),
    {
        let x = self.cursor_controller.cursor_x;
        let y = self.cursor_controller.cursor_y;
        let number_of_rows = self.editor_rows.number_of_rows();
        if y < number_of_rows {
            at_boundary(self.editor_rows.get_row(y), x) && self.dirty < u64::MAX
        } else {
            y == number_of_rows && x == 0 && self.dirty < u64::MAX - 1
        }
    }

    /// Whether what stands before `cursor` may be removed.
    pub fn may_delete_char(&self, cursor: CursorController) -> (yes: bool)
        ensures
            yes == (OutputView { cursor: cursor@, ..self@ }).can_delete_char(),
    {
        let number_of_rows = self.editor_rows.number_of_rows();
        if cursor.cursor_y < number_of_rows {
            if self.dirty == u64::MAX {
                false
            } else if cursor.cursor_x > 0 {
                let content = self.editor_rows.get_row(cursor.cursor_y);
                at_boundary(content, cursor.cursor_x - 1) && cursor.cursor_x - 1 < text_len(content)
            } else {
                cursor.cursor_y > 0
            }
        } else {
            cursor.cursor_y == number_of_rows
        }
    }

    /// Whether a row may be broken at the cursor.
    pub fn may_insert_newline(&self) -> (yes: bool)
        ensures
            yes == self@.can_insert_newline(),
    {
        let x = self.cursor_controller.cursor_x;
        let y = self.cursor_controller.cursor_y;
        let number_of_rows = self.editor_rows.number_of_rows();
        if self.dirty == u64::MAX {
            false
        } else if x == 0 {
            y <= number_of_rows
        } else {
            y < number_of_rows && at_boundary(self.editor_rows.get_row(y), x)
        }
    }

    /// Types `ch` at the cursor.
    pub fn insert_char(&mut self, ch: char)
        requires
            old(self).wf(),
            old(self)@.can_insert_char(),
        ensures
            final(self).wf(),
            final(self)@ == old(self)@.insert_char(ch),
            final(self).status_message == old(self).status_message,
    {
        let x = self.cursor_controller.cursor_x;
        let y = self.cursor_controller.cursor_y;
        let number_of_rows = self.editor_rows.number_of_rows();
        if y == number_of_rows {
            self.editor_rows.insert_row(number_of_rows, String::new());
            self.dirty += 1;
            proof {
                lemma_ends(Seq::empty());
                assert(self.editor_rows@ =~= old(self)@.rows.push(Seq::empty()));
            }
        }
        let ghost rows = self.editor_rows;
        proof {
            lemma_halves(rows@[y as int], x as int);
            lemma_encode_concat(
                before(rows@[y as int], x as int).push(ch),
                after(rows@[y as int], x as int),
            );
            lemma_encode_concat(before(rows@[y as int], x as int), seq![ch]);
            assert(before(rows@[y as int], x as int).push(ch) =~= before(rows@[y as int], x as int)
                + seq![ch]);
            lemma_chars_within_bytes(seq![ch]);
        }
        self.editor_rows.get_editor_row_mut(y).insert_char(x, ch);
        assert(self.editor_rows@ =~= rows@.update(
            y as int,
            with_char(rows@[y as int], x as int, ch),
        ));
        // The row now reaches past the cursor, so the next offset can be represented.
        let _len = text_len(self.editor_rows.get_row(y));
        self.cursor_controller.cursor_x = x + 1;
        self.dirty += 1;
    }

    /// Removes what stands before the cursor.
    pub fn delete_char(&mut self)
        requires
            old(self).wf(),
            old(self)@.can_delete_char(),
        ensures
            final(self).wf(),
            final(self)@ == old(self)@.delete_char(),
            final(self).status_message == old(self).status_message,
    {
        let x = self.cursor_controller.cursor_x;
        let y = self.cursor_controller.cursor_y;
        if y == self.editor_rows.number_of_rows() {
            return;
        }
        if x > 0 {
            self.editor_rows.get_editor_row_mut(y).delete_char(x - 1);
            assert(self.editor_rows@ =~= old(self)@.rows.update(
                y as int,
                without_char(old(self)@.rows[y as int], x - 1),
            ));
            self.cursor_controller.cursor_x = x - 1;
        } else {
            self.cursor_controller.cursor_x = text_len(self.editor_rows.get_row(y - 1));
            self.editor_rows.join_adjacent_rows(y);
            self.cursor_controller.cursor_y = y - 1;
        }
        self.dirty += 1;
    }

    /// Breaks the cursor's row at the cursor.
    pub fn insert_newline(&mut self)
        requires
            old(self).wf(),
            old(self)@.can_insert_newline(),
        ensures
            final(self).wf(),
            final(self)@ == old(self)@.insert_newline(),
            final(self).status_message == old(self).status_message,
    {
        let x = self.cursor_controller.cursor_x;
        let y = self.cursor_controller.cursor_y;
        if x == 0 {
            self.editor_rows.insert_row(y, String::new());
        } else {
            assert(self.editor_rows.row_contents.len() == old(self)@.rows.len());
            let current_row = self.editor_rows.get_editor_row_mut(y);
            let (kept, moved) = split_text(current_row.row_content.as_str(), x);
            let new_row_content = moved.to_owned();
            let kept_content = kept.to_owned();
            current_row.row_content = kept_content;
            EditorRows::render_row(current_row);
            assert(self.editor_rows@ =~= old(self)@.rows.update(
                y as int,
                before(old(self)@.rows[y as int], x as int),
            ));
            self.editor_rows.insert_row(y + 1, new_row_content);
        }
        assert(self.editor_rows.row_contents.len() == self@.rows.len());
        self.cursor_controller.cursor_x = 0;
        self.cursor_controller.cursor_y = y + 1;
        self.dirty += 1;
    }

    /// Puts the cursor on the first place where `keyword` is shown, unless the
    /// key pressed ended the prompt.
    pub fn find_callback(output: &mut Output, keyword: &str, key_code: KeyCode)
        requires
            old(output).wf(),
        ensures
            final(output).wf(),
            final(output)@ == if key_code is Esc || key_code is Enter {
                old(output)@
            } else {
                old(output)@.found(keyword@)
            },
            final(output).status_message == old(output).status_message,
    {
        match key_code {
            KeyCode::Esc | KeyCode::Enter => {},
            _ => {
                let number_of_rows = output.editor_rows.number_of_rows();
                let mut i: usize = 0;
                while i < number_of_rows
                    invariant
                        !(key_code is Esc || key_code is Enter),
                        *output == *old(output),
                        output.wf(),
                        i <= number_of_rows,
                        number_of_rows == output@.rows.len(),
                        row_with(output@.rows, keyword@, 0) == row_with(
                            output@.rows,
                            keyword@,
                            i as int,
                        ),
                    decreases number_of_rows - i,
                {
                    let row = output.editor_rows.get_editor_row(i);
                    if let Some(index) = find_text(row.render.as_str(), keyword) {
                        row.check_width();
                        let x = row.get_row_content_x(index);
                        output.cursor_controller.cursor_y = i;
                        output.cursor_controller.cursor_x = x;
                        output.cursor_controller.row_offset = number_of_rows;
                        return;
                    }
                    i += 1;
                }
            },
        }
    }

    /// Opens the prompt for a text to look for.
    pub fn find(&mut self)
        requires
            old(self).wf(),
        ensures
            final(self).wf(),
            final(self)@ == old(self)@.prompting(PromptKind::Search, Seq::empty()),
            final(self).status_message.just_set(),
    {
        self.open_prompt(PromptKind::Search);
    }

    /// Opens a prompt.
    pub fn open_prompt(&mut self, kind: PromptKind)
        requires
            old(self).wf(),
        ensures
            final(self).wf(),
            final(self)@ == old(self)@.prompting(kind, Seq::empty()),
            final(self).status_message.just_set(),
    {
        let input = String::new();
        self.status_message.set_message(Self::prompt_line(kind, input.as_str()));
        self.prompt = Some(Prompt { kind, input });
    }

    /// The message line that shows a prompt.
    fn prompt_line(kind: PromptKind, input: &str) -> (line: String)
        ensures
            line@ == kind.line(input@),
    {
        match kind {
            PromptKind::SaveAs => {
                let mut line = "Save as: ".to_owned();
                line.append(input);
                line
            },
            PromptKind::Search => {
                let mut line = "Search: ".to_owned();
                line.append(input);
                line.append(" (ESC to cancel)");
                line
            },
        }
    }

    /// What has been typed into a prompt once `key` is pressed.
    fn type_key(input: &mut String, key: KeyEvent)
        ensures
            final(input)@ == OutputView::typed(old(input)@, key),
    {
        match key.code {
            KeyCode::Backspace | KeyCode::Delete => {
                let len = input.as_str().unicode_len();
                if key.modifiers.is_none() && len > 0 {
                    let kept = input.as_str().substring_char(0, len - 1).to_owned();
                    assert(kept@ =~= input@.drop_last());
                    *input = kept;
                }
            },
            KeyCode::Char(ch) => {
                if key.modifiers.is_plain() {
                    input.push(ch);
                }
            },
            KeyCode::Tab => {
                if key.modifiers.is_plain() {
                    input.push('\t');
                }
            },
            _ => {},
        }
    }

    /// Hands a key press to the open prompt.
    pub fn prompt_key(&mut self, key: KeyEvent) -> (outcome: PromptOutcome)
        requires
            old(self).wf(),
            old(self)@.prompt is Some,
        ensures
            final(self).wf(),
            (final(self)@, outcome@) == old(self)@.prompt_key(key),
            final(self).status_message.just_set(),
    {
        let Some(prompt) = self.prompt.take() else {
            return PromptOutcome::Cancelled;
        };
        let kind = prompt.kind;
        let mut input = prompt.input;
        match key.code {
            KeyCode::Esc => {
                self.status_message.set_message(String::new());
                return PromptOutcome::Cancelled;
            },
            KeyCode::Enter => {
                if key.modifiers.is_none() && !input.as_str().is_empty() {
                    self.status_message.set_message(String::new());
                    return PromptOutcome::Entered(input);
                }
            },
            _ => {
                Self::type_key(&mut input, key);
            },
        }
        match kind {
            PromptKind::Search => Self::find_callback(self, input.as_str(), key.code),
            PromptKind::SaveAs => {},
        }
        self.status_message.set_message(Self::prompt_line(kind, input.as_str()));
        self.prompt = Some(Prompt { kind, input });
        PromptOutcome::Pending
    }
}

} // verus!
