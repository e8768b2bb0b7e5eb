//! The document: its rows and the file that they belong to.

use crate::columns::{lemma_take, shown, width, TAB_STOP};
use crate::lines::{joined, lemma_lines_first, lemma_lines_last, lines, without_cr};
use crate::row::Row;
use crate::text::{byte_len, chars_of, optional, repeated, text_len};
use vstd::prelude::*;

verus! {

/// The rows of the document, and the path of the file that they are saved to.
pub struct EditorRows {
    pub row_contents: Vec<Row>,
    pub filename: Option<String>,
}

/// What the editor was started on.
pub enum Source {
    /// No file was named.
    Unnamed,
    /// The named file did not exist and was created.
    Created { path: String },
    /// The named file, and the text that was read from it.
    Existing { path: String, text: String },
}

/// Why the document could not be saved.
#[derive(Clone, Copy, Debug, PartialEq, Eq, Structural)]
pub enum SaveError {
    /// The document belongs to no file.
    NoFilename,
}

/// What is to be written where when the document is saved.
pub struct SaveRequest {
    pub path: String,
    pub contents: String,
}

impl SaveError {
    /// What the user is told.
    pub fn description(&self) -> (text: String)
        ensures
            text@ == match self {
                SaveError::NoFilename => "no filename specified"@,
            },
    {
        match self {
            SaveError::NoFilename => "no filename specified".to_owned(),
        }
    }
}

impl SaveRequest {
    /// How many bytes are to be written.
    pub fn bytes(&self) -> (bytes: usize)
        ensures
            bytes == byte_len(self.contents@),
    {
        text_len(self.contents.as_str())
    }
}

/// The contents of `rows`.
pub open spec fn contents_of(rows: Seq<Row>) -> Seq<Seq<char>> {
    Seq::new(rows.len(), |i: int| rows[i]@)
}

impl View for EditorRows {
    type V = Seq<Seq<char>>;

    open spec fn view(&self) -> Seq<Seq<char>> {
        contents_of(self.row_contents@)
    }
}

impl EditorRows {
    /// Every row shows its content.
    pub open spec fn wf(&self) -> bool {
        forall|i: int|
            0 <= i < self.row_contents@.len() ==> (#[trigger] self.row_contents@[i]).in_sync()
    }

    /// The path of the file, as characters.
    pub open spec fn path(&self) -> Option<Seq<char>> {
        optional(self.filename)
    }

    /// The document that the editor starts with.
    pub fn new(source: Source) -> (rows: Self)
        ensures
            rows.wf(),
            match source {
                Source::Unnamed => rows@.len() == 0 && rows.path() is None,
                Source::Created { path } => rows@.len() == 0 && rows.path() == Some(path@),
                Source::Existing { path, text } => rows@ == lines(text@) && rows.path() == Some(
                    path@,
                ),
            },
    {
        match source {
            Source::Unnamed => EditorRows { row_contents: Vec::new(), filename: None },
            Source::Created { path } => Self::from_new_file(path),
            Source::Existing { path, text } => Self::from_file(path, text.as_str()),
        }
    }

    /// The document for a file that was just created.
    pub fn from_new_file(file_path: String) -> (rows: Self)
        ensures
            rows.wf(),
            rows@.len() == 0,
            rows.path() == Some(file_path@),
    {
        EditorRows { row_contents: Vec::new(), filename: Some(file_path) }
    }

    /// The document for a file that holds `file_contents`: one row for each line.
    pub fn from_file(file: String, file_contents: &str) -> (rows: Self)
        ensures
            rows.wf(),
            rows@ == lines(file_contents@),
            rows.path() == Some(file@),
    {
        let chars = chars_of(file_contents);
        let mut row_contents: Vec<Row> = Vec::new();
        let mut line = String::new();
        let mut i: usize = 0;
        assert(line@ + chars@.skip(0) =~= chars@);
        assert(contents_of(row_contents@) + lines(chars@) =~= lines(chars@));
        while i < chars.len()
            invariant
                i <= chars.len(),
                !line@.contains('\n'),
                lines(chars@) == contents_of(row_contents@) + lines(
                    line@ + chars@.skip(i as int),
                ),
                forall|j: int|
                    0 <= j < row_contents@.len() ==> (#[trigger] row_contents@[j]).in_sync(),
            decreases chars.len() - i,
        {
            let ghost rest = chars@.skip(i + 1);
            let ghost read = line@;
            let ghost done = contents_of(row_contents@);
            if chars[i] == '\n' {
                assert(line@ + chars@.skip(i as int) =~= line@.push('\n') + rest);
                proof {
                    lemma_lines_first(line@, rest);
                }
                let row = Self::row_of(Self::strip_cr(line));
                row_contents.push(row);
                line = String::new();
                assert(line@ + rest =~= rest);
                assert(contents_of(row_contents@) =~= done.push(without_cr(read)));
                assert(done + (seq![without_cr(read)] + lines(rest)) =~= done.push(
                    without_cr(read),
                ) + lines(rest));
            } else {
                line.push(chars[i]);
                assert(read + chars@.skip(i as int) =~= line@ + rest);
                assert(!line@.contains('\n')) by {
                    assert forall|j: int| 0 <= j < line@.len() implies line@[j] != '\n' by {
                        if j < read.len() {
                            assert(read.contains(read[j]));
                        }
                    }
                }
            }
            i += 1;
        }
        let ghost done = contents_of(row_contents@);
        assert(line@ + chars@.skip(i as int) =~= line@);
        proof {
            lemma_lines_last(line@);
        }
        if !line.as_str().is_empty() {
            let ghost last = line@;
            row_contents.push(Self::row_of(line));
            assert(contents_of(row_contents@) =~= done + seq![last]);
        } else {
            assert(done + lines(line@) =~= done);
        }
        EditorRows { row_contents, filename: Some(file) }
    }

    /// `line` without a carriage return at its end.
    fn strip_cr(line: String) -> (stripped: String)
        ensures
            stripped@ == without_cr(line@),
    {
        let len = line.as_str().unicode_len();
        if len > 0 && line.as_str().get_char(len - 1) == '\r' {
            let kept = line.as_str().substring_char(0, len - 1);
            assert(kept@ =~= line@.drop_last());
            kept.to_owned()
        } else {
            line
        }
    }

    /// A row with the given content.
    fn row_of(contents: String) -> (row: Row)
        ensures
            row@ == contents@,
            row.in_sync(),
    {
        let mut row = Row::new(contents, String::new());
        Self::render_row(&mut row);
        row
    }

    /// What is shown for row `at`.
    pub fn get_render(&self, at: usize) -> (render: &String)
        requires
            at < self@.len(),
        ensures
            *render == self.row_contents@[at as int].render,
            self.wf() ==> render@ == shown(self@[at as int]),
    {
        &self.row_contents[at].render
    }

    /// Row `at`.
    pub fn get_editor_row(&self, at: usize) -> (row: &Row)
        requires
            at < self@.len(),
        ensures
            *row == self.row_contents@[at as int],
            row@ == self@[at as int],
            self.wf() ==> row.in_sync(),
    {
        &self.row_contents[at]
    }

    /// The number of rows.
    pub fn number_of_rows(&self) -> (count: usize)
        ensures
            count == self@.len(),
    {
        self.row_contents.len()
    }

    /// The content of row `at`.
    pub fn get_row(&self, at: usize) -> (content: &str)
        requires
            at < self@.len(),
        ensures
            content@ == self@[at as int],
    {
        self.row_contents[at].row_content.as_str()
    }

    /// Brings the shown text of `row` in line with its content.
    pub fn render_row(row: &mut Row)
        ensures
            final(row).row_content == old(row).row_content,
            final(row).in_sync(),
    {
        let chars = chars_of(row.row_content.as_str());
        let mut render = String::new();
        let mut past_stop: usize = 0;
        let mut i: usize = 0;
        while i < chars.len()
            invariant
                chars@ == row.row_content@,
                i <= chars.len(),
                render@ == shown(chars@.take(i as int)),
                past_stop == width(chars@.take(i as int)) % (TAB_STOP as nat),
            decreases chars.len() - i,
        {
            let ch = chars[i];
            let ghost column = width(chars@.take(i as int));
            let ghost start = render@;
            proof {
                lemma_take(chars@, i as int);
            }
            if ch == '\t' {
                while past_stop < TAB_STOP
                    invariant
                        column % (TAB_STOP as nat) <= past_stop <= TAB_STOP,
                        render@ == start + repeated(' ', past_stop - column % (TAB_STOP as nat)),
                    decreases TAB_STOP - past_stop,
                {
                    render.push(' ');
                    past_stop += 1;
                }
                past_stop = 0;
            } else {
                render.push(ch);
                past_stop = (past_stop + 1) % TAB_STOP;
            }
            i += 1;
        }
        assert(chars@.take(chars@.len() as int) =~= chars@);
        row.render = render;
    }

    /// Inserts a row with the given content before row `at`, and brings what it shows
    /// in line with that. The other rows stay as they are.
    pub fn insert_row(&mut self, at: usize, contents: String)
        requires
            at <= old(self)@.len(),
        ensures
            final(self)@ == old(self)@.insert(at as int, contents@),
            final(self).row_contents@ == old(self).row_contents@.insert(
                at as int,
                final(self).row_contents@[at as int],
            ),
            final(self).row_contents@[at as int].row_content == contents,
            final(self).row_contents@[at as int].in_sync(),
            final(self).filename == old(self).filename,
            old(self).wf() ==> final(self).wf(),
    {
        let ghost content = contents@;
        let mut new_row = Row::new(contents, String::new());
        Self::render_row(&mut new_row);
        self.row_contents.insert(at, new_row);
        assert(self@ =~= old(self)@.insert(at as int, content));
        assert forall|i: int| old(self).wf() && 0 <= i < self.row_contents@.len() implies (
        #[trigger] self.row_contents@[i]).in_sync() by {
            if i < at {
                assert(self.row_contents@[i] == old(self).row_contents@[i]);
            } else if i > at {
                assert(self.row_contents@[i] == old(self).row_contents@[i - 1]);
            }
        }
    }

    /// Row `at`, to be changed in place.
    pub fn get_editor_row_mut(&mut self, at: usize) -> (row: &mut Row)
        requires
            at < old(self)@.len(),
        ensures
            *row == old(self).row_contents@[at as int],
            final(self).row_contents@ == old(self).row_contents@.update(at as int, *final(row)),
            final(self).filename == old(self).filename,
    {
        &mut self.row_contents[at]
    }

    /// What is to be written where when the document is saved.
    pub fn save(&self) -> (request: Result<SaveRequest, SaveError>)
        ensures
            match self.path() {
                None => request == Err::<SaveRequest, SaveError>(SaveError::NoFilename),
                Some(path) => request matches Ok(request) && request.path@ == path
                    && request.contents@ == joined(self@),
            },
    {
        match &self.filename {
            None => Err(SaveError::NoFilename),
            Some(name) => Ok(SaveRequest { path: name.clone(), contents: self.joined_rows() }),
        }
    }

    /// The rows in one text, with a line feed between each two.
    fn joined_rows(&self) -> (text: String)
        ensures
            text@ == joined(self@),
    {
        let mut text = String::new();
        let mut i: usize = 0;
        assert(self@.skip(0) =~= self@);
        assert(text@ + joined(self@) =~= joined(self@));
        while i < self.row_contents.len()
            invariant
                i <= self@.len(),
                joined(self@) == text@ + joined(self@.skip(i as int)),
            decreases self.row_contents.len() - i,
        {
            let ghost done = text@;
            let ghost left = self@.skip(i as int);
            text.append(self.row_contents[i].row_content.as_str());
            assert(left.drop_first() =~= self@.skip(i + 1));
            if i + 1 < self.row_contents.len() {
                text.push('\n');
                assert(done + joined(left) =~= text@ + joined(self@.skip(i + 1)));
            } else {
                assert(done + joined(left) =~= text@ + joined(self@.skip(i + 1)));
            }
            i += 1;
        }
        assert(text@ + joined(self@.skip(i as int)) =~= text@);
        text
    }

    /// Appends row `at` to the one above it, and brings what that shows in line with
    /// its content. The other rows stay as they are.
    pub fn join_adjacent_rows(&mut self, at: usize)
        requires
            0 < at < old(self)@.len(),
        ensures
            final(self)@ == old(self)@.remove(at as int).update(
                at - 1,
                old(self)@[at - 1] + old(self)@[at as int],
            ),
            final(self).row_contents@ == old(self).row_contents@.remove(at as int).update(
                at - 1,
                final(self).row_contents@[at - 1],
            ),
            final(self).row_contents@[at - 1].in_sync(),
            final(self).filename == old(self).filename,
            old(self).wf() ==> final(self).wf(),
    {
        let current_row = self.row_contents.remove(at);
        let ghost removed = self.row_contents@;
        let previous_row = self.get_editor_row_mut(at - 1);
        previous_row.row_content.append(current_row.row_content.as_str());
        Self::render_row(previous_row);
        assert(self@ =~= old(self)@.remove(at as int).update(
            at - 1,
            old(self)@[at - 1] + old(self)@[at as int],
        ));
        assert forall|i: int| old(self).wf() && 0 <= i < self.row_contents@.len() implies (
        #[trigger] self.row_contents@[i]).in_sync() by {
            if i < at - 1 {
                assert(self.row_contents@[i] == old(self).row_contents@[i]);
            } else if i >= at {
                assert(self.row_contents@[i] == old(self).row_contents@[i + 1]);
            }
        }
    }
}

} // verus!
