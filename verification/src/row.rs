//! One row of the document: its content, and the text shown for it.

use crate::columns::{
    covering, covers, lemma_covers_unique, lemma_take, lemma_width_fits, lemma_width_increases,
    shown, width, TAB_STOP,
};
use crate::rows::EditorRows;
use crate::text::{after, before, byte_len, chars_of, on_boundary, split_text, text_len};
use vstd::prelude::*;

verus! {

/// A row of the document. `render` caches what is shown for `row_content`.
pub struct Row {
    pub row_content: String,
    pub render: String,
}

impl View for Row {
    type V = Seq<char>;

    open spec fn view(&self) -> Seq<char> {
        self.row_content@
    }
}

/// `text` with `ch` inserted at byte offset `at`.
pub open spec fn with_char(text: Seq<char>, at: int, ch: char) -> Seq<char> {
    before(text, at).push(ch) + after(text, at)
}

/// `text` without the character at byte offset `at`.
pub open spec fn without_char(text: Seq<char>, at: int) -> Seq<char> {
    before(text, at) + after(text, at).drop_first()
}

impl Default for Row {
    fn default() -> (row: Self)
        ensures
            row.row_content@.len() == 0,
            row.render@.len() == 0,
    {
        Row { row_content: String::new(), render: String::new() }
    }
}

impl Row {
    /// The shown text is the one for the content.
    pub open spec fn in_sync(&self) -> bool {
        self.render@ == shown(self.row_content@)
    }

    /// A row made of the given parts, whether or not they belong together.
    pub fn new(row_content: String, render: String) -> (row: Self)
        ensures
            row.row_content == row_content,
            row.render == render,
    {
        Row { row_content, render }
    }

    /// Inserts `ch` at byte offset `at`.
    pub fn insert_char(&mut self, at: usize, ch: char)
        requires
            on_boundary(old(self)@, at as int),
        ensures
            final(self)@ == with_char(old(self)@, at as int, ch),
            final(self).in_sync(),
    {
        let (left, right) = split_text(self.row_content.as_str(), at);
        let mut content = left.to_owned();
        content.push(ch);
        content.append(right);
        self.row_content = content;
        EditorRows::render_row(self)
    }

    /// Removes the character at byte offset `at`.
    pub fn delete_char(&mut self, at: usize)
        requires
            on_boundary(old(self)@, at as int),
            at < byte_len(old(self)@),
        ensures
            final(self)@ == without_char(old(self)@, at as int),
            final(self).in_sync(),
    {
        let (left, right) = split_text(self.row_content.as_str(), at);
        proof {
            crate::text::lemma_halves(self.row_content@, at as int);
            assert(right@.len() > 0);
        }
        let mut content = left.to_owned();
        let rest = right.substring_char(1, right.unicode_len());
        assert(rest@ =~= after(self.row_content@, at as int).drop_first());
        content.append(rest);
        self.row_content = content;
        EditorRows::render_row(self)
    }

    /// The index of the character that covers column `render_x`; zero where the
    /// row does not reach that far.
    pub fn get_row_content_x(&self, render_x: usize) -> (index: usize)
        requires
            width(self@) <= usize::MAX,
        ensures
            index == covering(self@, render_x as nat),
            render_x < width(self@) ==> covers(self@, index as int, render_x as nat),
    {
        let chars = chars_of(self.row_content.as_str());
        let mut current_render_x: usize = 0;
        let mut cursor_x: usize = 0;
        while cursor_x < chars.len()
            invariant
                chars@ == self@,
                width(self@) <= usize::MAX,
                cursor_x <= chars.len(),
                current_render_x == width(self@.take(cursor_x as int)),
                current_render_x <= render_x,
            decreases chars.len() - cursor_x,
        {
            proof {
                lemma_take(self@, cursor_x as int);
                lemma_width_increases(self@, cursor_x + 1, chars@.len() as int);
                assert(self@.take(chars@.len() as int) =~= self@);
            }
            if chars[cursor_x] == '\t' {
                current_render_x += (TAB_STOP - 1) - (current_render_x % TAB_STOP);
            }
            current_render_x += 1;
            if current_render_x > render_x {
                proof {
                    assert(covers(self@, cursor_x as int, render_x as nat));
                    crate::columns::lemma_covering(self@, render_x as nat);
                    lemma_covers_unique(
                        self@,
                        cursor_x as int,
                        covering(self@, render_x as nat),
                        render_x as nat,
                    );
                }
                return cursor_x;
            }
            cursor_x += 1;
        }
        assert(self@.take(chars@.len() as int) =~= self@);
        0
    }

    /// A row that is in sync is narrow enough for its columns to be counted.
    pub(crate) fn check_width(&self)
        requires
            self.in_sync(),
        ensures
            width(self@) <= usize::MAX,
    {
        let _len = text_len(self.render.as_str());
        proof {
            lemma_width_fits(self@, self.render@);
        }
    }
}

} // verus!
