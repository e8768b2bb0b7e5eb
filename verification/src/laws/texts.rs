//! Laws of the texts that the editor works on: how they are cut, shown, read and
//! written.

use crate::columns::{covering, lemma_covering, lemma_push, shown};
use crate::laws::composing::blank;
use crate::laws::editing::lemma_joined_break;
use crate::laws::rendering::law_shown_is_as_wide_as_row;
use crate::laws::searching::stands_in_column;
use crate::lines::{joined, lemma_lines_first, lemma_lines_last, lines};
use crate::paths::{last_name, last_part, may_be_name};
use crate::text::{after, before, lemma_seam};
use vstd::prelude::*;
use vstd::utf8::{encode_utf8, is_char_boundary};

verus! {

/// A text is cut where its first part ends in bytes, into just its two parts.
pub proof fn law_text_is_cut_between_parts(left: Seq<char>, right: Seq<char>)
    ensures
        is_char_boundary(encode_utf8(left + right), encode_utf8(left).len() as int),
        before(left + right, encode_utf8(left).len() as int) == left,
        after(left + right, encode_utf8(left).len() as int) == right,
{
    lemma_seam(left, right);
}

/// What is shown for a text grows with it. A character is shown as it is; a tab is
/// shown as spaces, at least one, up to the next column that is a multiple of
/// eight.
pub proof fn law_shown_text_grows(text: Seq<char>, ch: char)
    ensures
        shown(Seq::<char>::empty()) == Seq::<char>::empty(),
        ch != '\t' ==> shown(text.push(ch)) == shown(text).push(ch),
        ({
            let tabbed = shown(text.push('\t'));
            let start = shown(text).len() as int;
            &&& tabbed.len() % 8 == 0
            &&& start < tabbed.len() <= start + 8
            &&& tabbed.take(start) == shown(text)
            &&& blank(tabbed.skip(start))
        }),
{
    lemma_push(text, ch);
    lemma_push(text, '\t');
    law_shown_is_as_wide_as_row(text);
    law_shown_is_as_wide_as_row(text.push('\t'));
    let start = shown(text).len() as int;
    assert(shown(text.push('\t')).take(start) =~= shown(text));
}

/// A column leads to the character that is shown in it, and to the start of the
/// row where none is.
pub proof fn law_column_leads_to_character(row: Seq<char>, column: nat)
    ensures
        column < shown(row).len() ==> stands_in_column(row, covering(row, column), column as int),
        column >= shown(row).len() ==> covering(row, column) == 0,
{
    law_shown_is_as_wide_as_row(row);
    if column < shown(row).len() {
        lemma_covering(row, column);
        let x = covering(row, column);
        law_shown_is_as_wide_as_row(row.take(x));
        law_shown_is_as_wide_as_row(row.take(x + 1));
    }
}

/// A line feed ends the first row of a file, and so does a carriage return with a
/// line feed. Neither belongs to the row.
pub proof fn law_line_feed_ends_row(line: Seq<char>, rest: Seq<char>)
    requires
        !line.contains('\n'),
    ensures
        lines(line + seq!['\r', '\n'] + rest) == seq![line] + lines(rest),
        line.len() == 0 || line.last() != '\r' ==> lines(line + seq!['\n'] + rest) == seq![line]
            + lines(rest),
{
    let returned = line.push('\r');
    assert forall|i: int| 0 <= i < returned.len() implies returned[i] != '\n' by {
        if i < line.len() {
            assert(line.contains(line[i]));
        }
    }
    lemma_lines_first(returned, rest);
    assert(returned.push('\n') + rest =~= line + seq!['\r', '\n'] + rest);
    assert(returned.drop_last() =~= line);
    lemma_lines_first(line, rest);
    assert(line.push('\n') + rest =~= line + seq!['\n'] + rest);
}

/// What follows the last line feed of a file is a row, unless it is empty.
pub proof fn law_rest_of_file_is_row(line: Seq<char>)
    requires
        !line.contains('\n'),
    ensures
        line.len() > 0 ==> lines(line) == seq![line],
        line.len() == 0 ==> lines(line) == Seq::<Seq<char>>::empty(),
{
    lemma_lines_last(line);
}

/// Rows are written one after the other with one line feed between each two, and
/// none at the end.
pub proof fn law_rows_are_written_in_order(
    row: Seq<char>,
    above: Seq<Seq<char>>,
    below: Seq<Seq<char>>,
)
    ensures
        joined(Seq::empty()) == Seq::<char>::empty(),
        joined(seq![row]) == row,
        above.len() > 0 && below.len() > 0 ==> joined(above + below) == joined(above) + seq!['\n']
            + joined(below),
{
    if above.len() > 0 && below.len() > 0 {
        lemma_joined_break(above, below);
        assert(joined(above).push('\n') + joined(below) =~= joined(above) + seq!['\n'] + joined(
            below,
        ));
    }
}

/// Neither a slash at the end of a path nor the component `.` changes the name, and
/// a path that ends in `..` has none.
pub proof fn law_name_passes_over_what_is_none(path: Seq<char>)
    ensures
        last_name(path.push('/')) == last_name(path),
        last_name(path + seq!['/', '.']) == last_name(path),
        last_name(path + seq!['/', '.', '.']) is None,
        last_name(seq!['.']) is None,
        last_name(seq!['.', '.']) is None,
        last_name(Seq::empty()) is None,
{
    let slashed = path.push('/');
    let dotted = path + seq!['/', '.'];
    let twice = path + seq!['/', '.', '.'];
    assert(slashed.drop_last() =~= path);
    assert(last_part(slashed) =~= Seq::empty());
    assert(dotted.drop_last() =~= slashed);
    assert(last_part(dotted) =~= seq!['.']);
    assert(seq!['.'].len() == 1 && seq!['.', '.'].len() == 2);
    assert(last_name(slashed) == last_name(path));
    assert(last_name(dotted) == last_name(slashed));
    assert(twice.drop_last() =~= dotted);
    assert(last_part(twice) =~= seq!['.', '.']);
    let dot = seq!['.'];
    assert(dot.drop_last() =~= Seq::empty());
    assert(last_part(Seq::empty()) =~= Seq::empty());
    assert(last_part(dot) =~= seq!['.']);
    assert(last_name(dot.drop_last()) is None);
    assert(last_name(dot) is None);
    let two = seq!['.', '.'];
    assert(two.drop_last() =~= dot);
    assert(last_part(two) =~= two);
}

/// A document without a file has no name. One whose path holds neither a backslash
/// nor a colon, and does not begin with two slashes, is called by the last name in
/// its path.
pub proof fn law_path_decides_name(path: Seq<char>, name: Option<Seq<char>>)
    ensures
        may_be_name(None, name) <==> name is None,
        may_be_name(Some(path), name) && !path.contains('\\') && !path.contains(':') && !(
        path.len() > 1 && path[0] == '/' && path[1] == '/') ==> name == last_name(path),
{
}

} // verus!
