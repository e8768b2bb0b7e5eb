//! Drawing: how the screen's state becomes what is sent to the terminal.

use crate::ansi;
use crate::ansi::{hide_sequence, move_to_sequence, show_sequence, Erase, Look};
use crate::columns::shown;
use crate::cursor::{least, CursorController, CursorView};
use crate::output::{Output, OutputView};
use crate::paths::{file_name, may_be_name};
use crate::status::{aged, MESSAGE_LIFETIME};
use crate::text::{
    at_boundary, before, between, byte_len, decimal, decimal_text, is_range, lemma_ascii_offsets,
    on_boundary, optional, optional_str, push_repeated, repeated, slice_text, split_text, text_len,
};
use vstd::prelude::*;
use vstd::utf8::is_ascii_chars;

verus! {

/// The editor's version.
pub const VERSION: &'static str = "0.1.0";

/// The number of values that the terminal's coordinates can take.
pub const COORDINATES: usize = 65536;

/// Why the screen could not be drawn.
#[derive(Clone, Copy, Debug, PartialEq, Eq, Structural)]
pub enum DrawError {
    /// A text would be cut inside a character, or the cursor would stand outside
    /// of the window.
    Unshowable,
}

/// What greets the user of an empty document.
pub open spec fn greeting() -> Seq<char> {
    "Test Editor --- Version "@ + VERSION@
}

/// The greeting as it is shown in a window with that many columns: cut to fit,
/// and otherwise centred, with a tilde in the first column if that is free.
pub open spec fn greeting_line(columns: int) -> Seq<char> {
    let text = greeting().take(least(greeting().len() as int, columns));
    let padding = (columns - text.len()) / 2;
    if padding == 0 {
        text
    } else {
        seq!['~'] + repeated(' ', padding - 1) + text
    }
}

/// The end of a line.
pub open spec fn line_break() -> Seq<char> {
    "\r\n"@
}

impl OutputView {
    /// What is shown for the row of the document in line `i` of the window.
    pub open spec fn row_shown(self, i: int) -> Seq<char> {
        shown(self.rows[i + self.cursor.row_offset])
    }

    /// How many bytes of that fit into the window.
    pub open spec fn visible_len(self, i: int) -> int {
        let len = byte_len(self.row_shown(i)) - self.cursor.columns_offset;
        least(
            if len < 0 {
                0
            } else {
                len
            },
            self.win_size.0,
        )
    }

    /// Where they start.
    pub open spec fn visible_start(self, i: int) -> int {
        if self.visible_len(i) == 0 {
            0
        } else {
            self.cursor.columns_offset
        }
    }

    /// Line `i` of the window, without what ends it: a part of a row, or a tilde
    /// below the document. An empty document is greeted at a third of the height.
    pub open spec fn window_line(self, i: int) -> Seq<char> {
        if i + self.cursor.row_offset < self.rows.len() {
            between(
                self.row_shown(i),
                self.visible_start(i),
                self.visible_start(i) + self.visible_len(i),
            )
        } else if self.rows.len() == 0 && i == self.win_size.1 / 3 {
            greeting_line(self.win_size.0)
        } else {
            seq!['~']
        }
    }

    /// The first `count` lines of the window.
    pub open spec fn window_lines(self, count: int) -> Seq<char>
        decreases count,
    {
        if count <= 0 {
            seq![]
        } else {
            self.window_lines(count - 1) + self.window_line(count - 1)
                + Erase::UntilNewLine.sequence() + line_break()
        }
    }

    /// Line `i` of the window cuts no character.
    pub open spec fn can_draw_line(self, i: int) -> bool {
        i + self.cursor.row_offset < self.rows.len() ==> is_range(
            self.row_shown(i),
            self.visible_start(i),
            self.visible_start(i) + self.visible_len(i),
        )
    }

    /// No line of the window cuts a character.
    pub open spec fn can_draw_rows(self) -> bool {
        forall|i: int| 0 <= i < self.win_size.1 ==> #[trigger] self.can_draw_line(i)
    }

    /// The screen with more text on its way to the terminal.
    pub open spec fn sending(self, text: Seq<char>) -> OutputView {
        OutputView { contents: self.contents + text, ..self }
    }

    /// The left part of the status bar: the name of the file, whether there are
    /// unsaved changes, and the length of the document.
    pub open spec fn document_info(self, name: Option<Seq<char>>) -> Seq<char> {
        (match name {
            Some(name) => name,
            None => "[No Name]"@,
        }) + seq![' '] + (if self.dirty > 0 {
            "(modified)"@
        } else {
            seq![]
        }) + " --- "@ + decimal(self.rows.len()) + " lines"@
    }

    /// The right part of the status bar: the cursor's row.
    pub open spec fn line_info(self) -> Seq<char> {
        decimal((self.cursor.cursor_y + 1) as nat) + seq!['/'] + decimal(self.rows.len())
    }

    /// How much of the left part fits.
    pub open spec fn info_len(self, name: Option<Seq<char>>) -> int {
        least(byte_len(self.document_info(name)) as int, self.win_size.0)
    }

    /// What fills the last `gap` columns of the status bar: the right part, flush
    /// with the edge, or nothing but spaces where it does not fit.
    pub open spec fn gap_filling(self, gap: int) -> Seq<char> {
        let right = self.line_info();
        if gap < right.len() {
            repeated(' ', gap)
        } else {
            repeated(' ', gap - right.len()) + right
        }
    }

    /// The status bar, in reverse.
    pub open spec fn status_bar(self, name: Option<Seq<char>>) -> Seq<char> {
        Look::Reverse.sequence() + before(self.document_info(name), self.info_len(name))
            + self.gap_filling(self.win_size.0 - self.info_len(name)) + Look::Reset.sequence()
            + line_break()
    }

    /// The status bar cuts no character, and the cursor's row has a number.
    pub open spec fn can_draw_status_bar(self, name: Option<Seq<char>>) -> bool {
        &&& on_boundary(self.document_info(name), self.info_len(name))
        &&& self.cursor.cursor_y < usize::MAX
    }

    /// How much of a message fits.
    pub open spec fn message_len(self, message: Seq<char>) -> int {
        least(self.win_size.0, byte_len(message) as int)
    }

    /// The message line, when the message was set `age` nanoseconds ago.
    pub open spec fn message_bar(self, age: u128) -> Seq<char> {
        Erase::UntilNewLine.sequence() + match aged(self.message, age) {
            Some(message) => before(message, self.message_len(message)),
            None => seq![],
        }
    }

    /// The message line cuts no character.
    pub open spec fn can_draw_message_bar(self, age: u128) -> bool {
        aged(self.message, age) matches Some(message) ==> on_boundary(
            message,
            self.message_len(message),
        )
    }

    /// The screen after the message line is drawn, which forgets a message that
    /// is too old.
    pub open spec fn message_drawn(self, age: u128) -> OutputView {
        OutputView { message: aged(self.message, age), ..self.sending(self.message_bar(age)) }
    }

    /// The cursor's column in the window, as a coordinate of the terminal.
    pub open spec fn terminal_column(self) -> int {
        (self.cursor.render_x - self.cursor.columns_offset) % COORDINATES as int
    }

    /// The cursor's line in the window, as a coordinate of the terminal.
    pub open spec fn terminal_line(self) -> int {
        (self.cursor.cursor_y - self.cursor.row_offset) % COORDINATES as int
    }

    /// The cursor can be placed in the window.
    pub open spec fn can_place_cursor(self) -> bool {
        &&& self.cursor.columns_offset <= self.cursor.render_x
        &&& self.cursor.row_offset <= self.cursor.cursor_y
        &&& self.terminal_column() + 1 < COORDINATES
        &&& self.terminal_line() + 1 < COORDINATES
    }

    /// The screen with another cursor, and the window that goes with it.
    pub open spec fn with_cursor(self, cursor: CursorView) -> OutputView {
        OutputView { cursor, ..self }
    }

    /// The screen with the window moved to the cursor.
    pub open spec fn scrolled(self) -> OutputView {
        self.with_cursor(self.cursor.scrolled(self.rows))
    }

    /// The screen can be drawn, when its file has that name and its message that
    /// age.
    pub open spec fn can_refresh(self, name: Option<Seq<char>>, age: u128) -> bool {
        &&& self.cursor.can_scroll(self.rows)
        &&& self.scrolled().can_draw_rows()
        &&& self.scrolled().can_draw_status_bar(name)
        &&& self.scrolled().can_draw_message_bar(age)
        &&& self.scrolled().can_place_cursor()
    }

    /// What is sent to draw the screen, once the window shows the cursor.
    pub open spec fn frame(self, name: Option<Seq<char>>, age: u128) -> Seq<char> {
        hide_sequence() + Erase::All.sequence() + move_to_sequence(0, 0) + self.window_lines(
            self.win_size.1,
        ) + self.status_bar(name) + self.message_bar(age) + move_to_sequence(
            self.terminal_column() as nat,
            self.terminal_line() as nat,
        ) + show_sequence()
    }

    /// The screen after it is drawn.
    pub open spec fn refreshed(self, name: Option<Seq<char>>, age: u128) -> OutputView {
        OutputView {
            message: aged(self.message, age),
            ..self.scrolled().sending(self.scrolled().frame(name, age))
        }
    }
}

/// Numbers are written in ASCII.
pub proof fn lemma_decimal_ascii(value: nat)
    ensures
        is_ascii_chars(decimal(value)),
        decimal(value).len() > 0,
    decreases value,
{
    if value >= 10 {
        lemma_decimal_ascii(value / 10);
    }
}

/// Sending two texts one after the other is sending them as one.
proof fn lemma_sending_twice(output: OutputView, first: Seq<char>, second: Seq<char>)
    ensures
        output.sending(first).sending(second) == output.sending(first + second),
{
    assert(output.contents + first + second =~= output.contents + (first + second));
}

/// What is drawn for the document does not depend on what is already on its way
/// to the terminal.
proof fn lemma_drawn_alike(output: OutputView, text: Seq<char>, count: int)
    ensures
        output.sending(text).window_lines(count) == output.window_lines(count),
        output.sending(text).can_draw_rows() == output.can_draw_rows(),
    decreases count,
{
    let sending = output.sending(text);
    assert(sending.rows == output.rows && sending.cursor == output.cursor && sending.win_size
        == output.win_size);
    assert forall|i: int| #[trigger] sending.can_draw_line(i) == output.can_draw_line(i) by {}
    if output.can_draw_rows() {
        assert forall|i: int| 0 <= i < sending.win_size.1 implies #[trigger] sending.can_draw_line(
            i,
        ) by {
            assert(output.can_draw_line(i));
        }
    }
    if sending.can_draw_rows() {
        assert forall|i: int| 0 <= i < output.win_size.1 implies #[trigger] output.can_draw_line(
            i,
        ) by {
            assert(sending.can_draw_line(i));
        }
    }
    if count > 0 {
        lemma_drawn_alike(output, text, count - 1);
    }
}

impl Output {
    /// Composes the lines of the window.
    pub fn draw_rows(&mut self)
        requires
            old(self).wf(),
            old(self)@.can_draw_rows(),
        ensures
            final(self).wf(),
            final(self)@ == old(self)@.sending(old(self)@.window_lines(old(self)@.win_size.1)),
            final(self).status_message == old(self).status_message,
    {
        let ghost start = self@;
        let screen_rows = self.win_size.1;
        assert(start.contents + start.window_lines(0) =~= start.contents);
        for i in 0..screen_rows
            invariant
                self.wf(),
                screen_rows == start.win_size.1,
                start.can_draw_rows(),
                self@ == start.sending(start.window_lines(i as int)),
                self.status_message == old(self).status_message,
        {
            assert(start.can_draw_line(i as int));
            self.draw_row(i);
            let erase = ansi::clear(Erase::UntilNewLine);
            self.editor_contents.queue(erase.as_str());
            self.editor_contents.push_str("\r\n");
            assert(self@.contents =~= start.contents + start.window_lines(i + 1));
        }
    }

    /// Composes line `i` of the window, without what ends it.
    fn draw_row(&mut self, i: usize)
        requires
            old(self).wf(),
            i < old(self)@.win_size.1,
            old(self)@.can_draw_line(i as int),
        ensures
            final(self).wf(),
            final(self)@ == old(self)@.sending(old(self)@.window_line(i as int)),
            final(self).status_message == old(self).status_message,
    {
        let number_of_rows = self.editor_rows.number_of_rows();
        let row_offset = self.cursor_controller.row_offset;
        if row_offset >= number_of_rows || i >= number_of_rows - row_offset {
            if number_of_rows == 0 && i == self.win_size.1 / 3 {
                self.draw_greeting();
            } else {
                self.editor_contents.push('~');
                assert(self@.contents =~= old(self)@.contents + seq!['~']);
            }
        } else {
            let row = self.editor_rows.get_render(i + row_offset).as_str();
            let (start, len) = Self::visible_part(
                row,
                self.cursor_controller.columns_offset,
                self.win_size.0,
            );
            let part = slice_text(row, start, start + len);
            self.editor_contents.push_str(part);
        }
    }

    /// Where the part of `row` that a window of `columns` columns shows begins,
    /// and how long it is.
    fn visible_part(row: &str, columns_offset: usize, columns: usize) -> (part: (usize, usize))
        ensures
            part.1 == least(
                if byte_len(row@) < columns_offset {
                    0
                } else {
                    byte_len(row@) - columns_offset
                },
                columns as int,
            ),
            part.0 == if part.1 == 0 {
                0
            } else {
                columns_offset
            },
            part.0 + part.1 <= byte_len(row@) <= usize::MAX,
    {
        let rest = text_len(row).saturating_sub(columns_offset);
        let len = if rest <= columns {
            rest
        } else {
            columns
        };
        let start = if len == 0 {
            0
        } else {
            columns_offset
        };
        (start, len)
    }

    /// Composes the line that greets the user of an empty document.
    fn draw_greeting(&mut self)
        requires
            old(self).wf(),
        ensures
            final(self).wf(),
            final(self)@ == old(self)@.sending(greeting_line(old(self)@.win_size.0)),
            final(self).status_message == old(self).status_message,
    {
        let screen_columns = self.win_size.0;
        let mut welcome = "Test Editor --- Version ".to_owned();
        welcome.append(VERSION);
        proof {
            reveal_strlit("Test Editor --- Version ");
            reveal_strlit("0.1.0");
            lemma_ascii_offsets(greeting());
        }
        let len = text_len(welcome.as_str());
        let shown_len = if len > screen_columns {
            screen_columns
        } else {
            len
        };
        let (text, _) = split_text(welcome.as_str(), shown_len);
        assert(on_boundary(greeting(), shown_len as int));
        assert(text@ == greeting().take(shown_len as int));
        assert(shown_len == least(greeting().len() as int, screen_columns as int));
        let padding = (screen_columns - shown_len) / 2;
        assert(padding == (screen_columns - text@.len()) / 2);
        if padding != 0 {
            self.editor_contents.push('~');
            push_repeated(&mut self.editor_contents.content, ' ', padding - 1);
        }
        self.editor_contents.push_str(text);
        assert(self@.contents =~= old(self)@.contents + greeting_line(screen_columns as int));
    }

    /// The left part of the status bar.
    fn info_text(&self, name: Option<&str>) -> (info: String)
        ensures
            info@ == self@.document_info(optional_str(name)),
    {
        let mut info = match name {
            Some(name) => name.to_owned(),
            None => "[No Name]".to_owned(),
        };
        info.push(' ');
        if self.dirty > 0 {
            info.append("(modified)");
        }
        info.append(" --- ");
        info.append(decimal_text(self.editor_rows.number_of_rows()).as_str());
        info.append(" lines");
        assert(info@ =~= self@.document_info(optional_str(name)));
        info
    }

    /// Composes the status bar of a document whose file has the given name.
    pub fn draw_status_bar(&mut self, name: Option<&str>)
        requires
            old(self).wf(),
            old(self)@.can_draw_status_bar(optional_str(name)),
        ensures
            final(self).wf(),
            final(self)@ == old(self)@.sending(old(self)@.status_bar(optional_str(name))),
            final(self).status_message == old(self).status_message,
    {
        let info = self.info_text(name);
        let columns = self.win_size.0;
        let len = text_len(info.as_str());
        let info_len = if len <= columns {
            len
        } else {
            columns
        };
        let (info_part, _) = split_text(info.as_str(), info_len);
        let gap_text = self.gap_text(columns - info_len);
        let mut bar = ansi::attribute(Look::Reverse);
        bar.append(info_part);
        bar.append(gap_text.as_str());
        bar.append(ansi::attribute(Look::Reset).as_str());
        bar.append("\r\n");
        self.editor_contents.push_str(bar.as_str());
    }

    /// What fills the last `gap` columns of the status bar.
    fn gap_text(&self, gap: usize) -> (text: String)
        requires
            self.cursor_controller.cursor_y < usize::MAX,
        ensures
            text@ == self@.gap_filling(gap as int),
    {
        let mut line_info = decimal_text(self.cursor_controller.cursor_y + 1);
        line_info.push('/');
        line_info.append(decimal_text(self.editor_rows.number_of_rows()).as_str());
        proof {
            lemma_decimal_ascii((self@.cursor.cursor_y + 1) as nat);
            lemma_decimal_ascii(self@.rows.len());
            assert(line_info@ =~= self@.line_info());
            lemma_ascii_offsets(line_info@);
        }
        let len = text_len(line_info.as_str());
        let mut text = String::new();
        if gap < len {
            push_repeated(&mut text, ' ', gap);
            assert(text@ =~= repeated(' ', gap as int));
        } else {
            push_repeated(&mut text, ' ', gap - len);
            assert(text@ =~= repeated(' ', gap - len));
            text.append(line_info.as_str());
        }
        text
    }

    /// Composes the message line, when the message was set `age` nanoseconds ago.
    pub fn draw_message_bar(&mut self, age: u128)
        requires
            old(self).wf(),
            old(self)@.can_draw_message_bar(age),
        ensures
            final(self).wf(),
            final(self)@ == old(self)@.message_drawn(age),
            age <= MESSAGE_LIFETIME ==> final(self).status_message == old(self).status_message,
    {
        let erase = ansi::clear(Erase::UntilNewLine);
        self.editor_contents.queue(erase.as_str());
        let columns = self.win_size.0;
        if let Some(msg) = self.status_message.message_at(age) {
            let len = text_len(msg.as_str());
            let shown_len = if columns <= len {
                columns
            } else {
                len
            };
            let (part, _) = split_text(msg.as_str(), shown_len);
            self.editor_contents.push_str(part);
        }
        assert(self@.contents =~= old(self)@.contents + old(self)@.message_bar(age));
    }

    /// The name of the document's file, without its directory.
    fn document_name(&self) -> (name: Option<String>)
        ensures
            may_be_name(self@.filename, optional(name)),
    {
        match &self.editor_rows.filename {
            Some(path) => match file_name(path.as_str()) {
                Some(name) => Some(name.to_owned()),
                None => None,
            },
            None => None,
        }
    }

    /// Whether line `i` of the window that goes with `cursor` can be drawn.
    fn may_draw_line(&self, cursor: CursorController, i: usize) -> (yes: bool)
        requires
            self.wf(),
        ensures
            yes == self@.with_cursor(cursor@).can_draw_line(i as int),
    {
        let number_of_rows = self.editor_rows.number_of_rows();
        let row_offset = cursor.row_offset;
        if row_offset >= number_of_rows || i >= number_of_rows - row_offset {
            true
        } else {
            let row = self.editor_rows.get_render(i + row_offset).as_str();
            let (start, len) = Self::visible_part(row, cursor.columns_offset, self.win_size.0);
            at_boundary(row, start) && at_boundary(row, start + len)
        }
    }

    /// Whether the lines of the window that goes with `cursor` can be drawn.
    pub fn may_draw_rows(&self, cursor: CursorController) -> (yes: bool)
        requires
            self.wf(),
        ensures
            yes == self@.with_cursor(cursor@).can_draw_rows(),
    {
        let screen_rows = self.win_size.1;
        for i in 0..screen_rows
            invariant
                self.wf(),
                screen_rows == self@.win_size.1,
                forall|j: int|
                    0 <= j < i ==> #[trigger] self@.with_cursor(cursor@).can_draw_line(j),
        {
            if !self.may_draw_line(cursor, i) {
                assert(!self@.with_cursor(cursor@).can_draw_line(i as int));
                return false;
            }
        }
        true
    }

    /// Whether the status bar can be drawn for a file of the given name.
    pub fn may_draw_status_bar(&self, name: Option<&str>) -> (yes: bool)
        ensures
            yes == self@.can_draw_status_bar(optional_str(name)),
    {
        let info = self.info_text(name);
        let columns = self.win_size.0;
        let len = text_len(info.as_str());
        let info_len = if len <= columns {
            len
        } else {
            columns
        };
        at_boundary(info.as_str(), info_len) && self.cursor_controller.cursor_y < usize::MAX
    }

    /// Whether the message line can be drawn, when the message was set `age`
    /// nanoseconds ago.
    pub fn may_draw_message_bar(&self, age: u128) -> (yes: bool)
        ensures
            yes == self@.can_draw_message_bar(age),
    {
        if age > MESSAGE_LIFETIME {
            return true;
        }
        match &self.status_message.message {
            Some(msg) => {
                let len = text_len(msg.as_str());
                let shown_len = if self.win_size.0 <= len {
                    self.win_size.0
                } else {
                    len
                };
                at_boundary(msg.as_str(), shown_len)
            },
            None => true,
        }
    }

    /// Whether `cursor` can be placed in the window that goes with it.
    pub fn may_place_cursor(&self, cursor: CursorController) -> (yes: bool)
        ensures
            yes == self@.with_cursor(cursor@).can_place_cursor(),
    {
        if cursor.columns_offset > cursor.render_x || cursor.row_offset > cursor.cursor_y {
            return false;
        }
        let column = (cursor.render_x - cursor.columns_offset) % COORDINATES;
        let line = (cursor.cursor_y - cursor.row_offset) % COORDINATES;
        column + 1 < COORDINATES && line + 1 < COORDINATES
    }

    /// Whether the screen can be drawn for a file of the given name and a message
    /// of the given age.
    pub fn may_refresh(&self, name: Option<&str>, age: u128) -> (yes: bool)
        requires
            self.wf(),
        ensures
            yes == self@.can_refresh(optional_str(name), age),
    {
        let mut cursor = self.cursor_controller;
        if !cursor.may_scroll(&self.editor_rows) {
            return false;
        }
        cursor.scroll(&self.editor_rows);
        assert(self@.with_cursor(cursor@) == self@.scrolled());
        self.may_draw_rows(cursor) && self.may_draw_status_bar(name) && self.may_draw_message_bar(
            age,
        ) && self.may_place_cursor(cursor)
    }

    /// Composes the whole screen, for a file of the given name and a message of
    /// the given age, once the window shows the cursor.
    fn draw_frame(&mut self, name: Option<&str>, age: u128)
        requires
            old(self).wf(),
            old(self)@.can_draw_rows(),
            old(self)@.can_draw_status_bar(optional_str(name)),
            old(self)@.can_draw_message_bar(age),
            old(self)@.can_place_cursor(),
        ensures
            final(self).wf(),
            final(self)@ == (OutputView {
                message: aged(old(self)@.message, age),
                ..old(self)@.sending(old(self)@.frame(optional_str(name), age))
            }),
            age <= MESSAGE_LIFETIME ==> final(self).status_message == old(self).status_message,
    {
        let ghost start = self@;
        let ghost place = move_to_sequence(
            start.terminal_column() as nat,
            start.terminal_line() as nat,
        );
        let ghost opening = hide_sequence() + Erase::All.sequence() + move_to_sequence(0, 0);
        let ghost with_rows = opening + start.window_lines(start.win_size.1);
        let ghost with_bar = with_rows + start.status_bar(optional_str(name));
        let ghost with_message = with_bar + start.message_bar(age);
        self.draw_opening();
        proof {
            lemma_drawn_alike(start, opening, start.win_size.1);
            lemma_sending_twice(start, opening, start.window_lines(start.win_size.1));
            lemma_sending_twice(start, with_rows, start.status_bar(optional_str(name)));
            lemma_sending_twice(start, with_bar, start.message_bar(age));
        }
        self.draw_rows();
        assert(self@ == start.sending(with_rows));
        self.draw_status_bar(name);
        assert(self@ == start.sending(with_bar));
        self.draw_message_bar(age);
        let ghost drawn = OutputView { message: aged(start.message, age), ..start };
        assert(self@ == drawn.sending(with_message));
        let cursor = self.cursor_controller;
        let column = ((cursor.render_x - cursor.columns_offset) % COORDINATES) as u16;
        let line = ((cursor.cursor_y - cursor.row_offset) % COORDINATES) as u16;
        self.editor_contents.queue(ansi::move_to(column, line).as_str());
        self.editor_contents.queue(ansi::show_cursor().as_str());
        proof {
            lemma_sending_twice(drawn, with_message, place);
            lemma_sending_twice(drawn, with_message + place, show_sequence());
        }
    }

    /// Composes what comes before the lines of the window: the cursor is hidden,
    /// the screen is erased, and drawing starts in its corner.
    fn draw_opening(&mut self)
        requires
            old(self).wf(),
        ensures
            final(self).wf(),
            final(self)@ == old(self)@.sending(
                hide_sequence() + Erase::All.sequence() + move_to_sequence(0, 0),
            ),
            final(self).status_message == old(self).status_message,
    {
        self.editor_contents.queue(ansi::hide_cursor().as_str());
        self.editor_contents.queue(ansi::clear(Erase::All).as_str());
        self.editor_contents.queue(ansi::move_to(0, 0).as_str());
        proof {
            lemma_sending_twice(old(self)@, hide_sequence(), Erase::All.sequence());
            lemma_sending_twice(
                old(self)@,
                hide_sequence() + Erase::All.sequence(),
                move_to_sequence(0, 0),
            );
        }
    }

    /// Moves the window to the cursor and composes the whole screen, for a file
    /// of the given name and a message of the given age.
    pub fn refresh_screen_with(&mut self, name: Option<&str>, age: u128)
        requires
            old(self).wf(),
            old(self)@.can_refresh(optional_str(name), age),
        ensures
            final(self).wf(),
            final(self)@ == old(self)@.refreshed(optional_str(name), age),
            age <= MESSAGE_LIFETIME ==> final(self).status_message == old(self).status_message,
    {
        self.cursor_controller.scroll(&self.editor_rows);
        self.draw_frame(name, age);
    }

    /// Moves the window to the cursor and composes the whole screen, with the
    /// name of the document's file and the present age of the message. A screen
    /// that cannot be drawn is left as it is.
    pub fn refresh_screen(&mut self) -> (drawn: Result<(), DrawError>)
        requires
            old(self).wf(),
        ensures
            final(self).wf(),
            (exists|name: Option<Seq<char>>, age: u128|
                {
                    &&& may_be_name(old(self)@.filename, name)
                    &&& old(self).status_message.may_have_age(age)
                    &&& drawn is Ok <==> #[trigger] old(self)@.can_refresh(name, age)
                    &&& drawn is Ok ==> final(self)@ == old(self)@.refreshed(name, age)
                    &&& age <= MESSAGE_LIFETIME ==> final(self).status_message
                        == old(self).status_message
                }),
            drawn is Err ==> *final(self) == *old(self),
    {
        let name = self.document_name();
        let shown_name = match &name {
            Some(name) => Some(name.as_str()),
            None => None,
        };
        let age = self.status_message.age();
        if self.may_refresh(shown_name, age) {
            self.refresh_screen_with(shown_name, age);
            Ok(())
        } else {
            Err(DrawError::Unshowable)
        }
    }
}

} // verus!
