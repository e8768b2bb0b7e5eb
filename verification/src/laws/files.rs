//! Laws of how the document is read and written.

use crate::lines::{joined, lemma_lines_first, lemma_lines_last, line_end, lines, without_cr};
use vstd::prelude::*;

verus! {

/// Row `i` of `rows` can be told from the others in a file: it holds no line
/// feed, and does not end in a carriage return where a line feed would follow.
pub open spec fn is_line(rows: Seq<Seq<char>>, i: int) -> bool {
    &&& !rows[i].contains('\n')
    &&& i + 1 < rows.len() ==> without_cr(rows[i]) == rows[i]
}

/// Each row can be told from the others in a file, and the last one is not empty.
pub open spec fn are_lines(rows: Seq<Seq<char>>) -> bool {
    &&& forall|i: int| 0 <= i < rows.len() ==> #[trigger] is_line(rows, i)
    &&& rows.len() > 0 ==> rows.last().len() > 0
}

/// What was saved is read back as it was, exactly when each row can be told from
/// the others and the last one is not empty.
pub proof fn law_reading_gives_back_what_was_saved(rows: Seq<Seq<char>>)
    ensures
        lines(joined(rows)) == rows <==> are_lines(rows),
{
    if forall|i: int| 0 <= i < rows.len() ==> !(#[trigger] rows[i]).contains('\n') {
        lemma_lines_of_joined(rows);
        let found = lines(joined(rows));
        if found == rows {
            assert forall|i: int| 0 <= i < rows.len() implies #[trigger] is_line(rows, i) by {
                assert(found[i] == rows[i]);
            }
        }
        if are_lines(rows) {
            assert forall|i: int| 0 <= i < rows.len() implies found[i] == rows[i] by {
                assert(is_line(rows, i));
            }
            assert(found =~= rows);
        }
    } else {
        let i = choose|i: int| 0 <= i < rows.len() && (#[trigger] rows[i]).contains('\n');
        assert(!is_line(rows, i));
        if lines(joined(rows)) == rows {
            law_rows_read_hold_no_line_feed(joined(rows), i);
        }
    }
}

proof fn lemma_lines_of_joined(rows: Seq<Seq<char>>)
    requires
        forall|i: int| 0 <= i < rows.len() ==> !(#[trigger] rows[i]).contains('\n'),
    ensures
        ({
            let found = lines(joined(rows));
            let kept = if rows.len() > 0 && rows.last().len() == 0 {
                rows.len() - 1
            } else {
                rows.len() as int
            };
            &&& found.len() == kept
            &&& forall|i: int|
                0 <= i < kept ==> #[trigger] found[i] == if i + 1 < rows.len() {
                    without_cr(rows[i])
                } else {
                    rows[i]
                }
        }),
    decreases rows.len(),
{
    if rows.len() == 0 {
    } else if rows.len() == 1 {
        lemma_lines_last(rows[0]);
    } else {
        let rest = rows.drop_first();
        assert forall|i: int| 0 <= i < rest.len() implies !(#[trigger] rest[i]).contains('\n') by {
            assert(rest[i] == rows[i + 1]);
        }
        lemma_lines_of_joined(rest);
        lemma_lines_first(rows[0], joined(rest));
        let found = lines(joined(rows));
        assert forall|i: int| 0 < i < found.len() implies #[trigger] found[i] == lines(
            joined(rest),
        )[i - 1] by {}
    }
}

/// A carriage return and a line feed end a line of `text`, or a line feed ends it.
pub open spec fn loses_line_ending(text: Seq<char>) -> bool {
    ||| exists|i: int| 0 < i < text.len() && text[i - 1] == '\r' && #[trigger] text[i] == '\n'
    ||| text.len() > 0 && text.last() == '\n'
}

/// Saving a file that was just read writes it as it was, exactly when its lines
/// end in line feeds alone and the last one has no ending.
pub proof fn law_saving_gives_back_what_was_read(text: Seq<char>)
    ensures
        joined(lines(text)) == text <==> !loses_line_ending(text),
{
    lemma_joined_lines(text);
}

proof fn lemma_joined_lines(text: Seq<char>)
    ensures
        joined(lines(text)).len() <= text.len(),
        loses_line_ending(text) ==> joined(lines(text)).len() < text.len(),
        !loses_line_ending(text) ==> joined(lines(text)) == text,
    decreases text.len(),
{
    lemma_line_end_is_first(text);
    let end = line_end(text) as int;
    if text.len() > 0 && end < text.len() {
        let line = text.take(end);
        let rest = text.skip(end + 1);
        let found = lines(text);
        assert(found.drop_first() =~= lines(rest));
        assert(line.push('\n') + rest =~= text);
        lemma_joined_lines(rest);
        if rest.len() == 0 {
            assert(text.last() == text[end]);
        } else {
            lemma_some_lines(rest);
            assert(rest.last() == text.last());
            if line.len() > 0 && line.last() == '\r' {
                assert(text[end - 1] == '\r' && text[end] == '\n');
            }
            if loses_line_ending(rest) && rest.last() != '\n' {
                let i = choose|i: int|
                    0 < i < rest.len() && rest[i - 1] == '\r' && #[trigger] rest[i] == '\n';
                assert(text[i + end] == '\r' && text[i + end + 1] == '\n');
            }
            if loses_line_ending(text) && text.last() != '\n' {
                let i = choose|i: int|
                    0 < i < text.len() && text[i - 1] == '\r' && #[trigger] text[i] == '\n';
                if i < end {
                    assert(line.contains(text[i])) by {
                        assert(line[i] == text[i]);
                    }
                } else if i == end {
                    assert(line.last() == '\r');
                } else {
                    assert(i > end + 1);
                    assert(rest[i - end - 2] == '\r' && rest[i - end - 1] == '\n');
                }
            }
        }
    } else if text.len() > 0 {
        assert(text.take(end) =~= text);
        assert(lines(text) =~= seq![text]);
        assert forall|i: int| 0 <= i < text.len() implies text[i] != '\n' by {
            assert(text.contains(text[i]));
        }
    }
}

proof fn lemma_some_lines(text: Seq<char>)
    requires
        text.len() > 0,
    ensures
        lines(text).len() > 0,
{
}

proof fn lemma_line_end_is_first(text: Seq<char>)
    ensures
        line_end(text) <= text.len(),
        line_end(text) < text.len() ==> text[line_end(text) as int] == '\n',
        !text.take(line_end(text) as int).contains('\n'),
    decreases text.len(),
{
    if text.len() > 0 && text[0] != '\n' {
        let rest = text.drop_first();
        lemma_line_end_is_first(rest);
        let line = text.take(line_end(text) as int);
        assert forall|i: int| 0 <= i < line.len() implies line[i] != '\n' by {
            if i > 0 {
                assert(line[i] == rest.take(line_end(rest) as int)[i - 1]);
                assert(rest.take(line_end(rest) as int).contains(line[i]));
            }
        }
    }
}

/// No row that was read from a file holds a line feed.
pub proof fn law_rows_read_hold_no_line_feed(text: Seq<char>, i: int)
    requires
        0 <= i < lines(text).len(),
    ensures
        !lines(text)[i].contains('\n'),
    decreases text.len(),
{
    lemma_line_end_is_first(text);
    let end = line_end(text);
    if end < text.len() {
        let line = text.take(end as int);
        if i == 0 {
            assert forall|j: int| 0 <= j < without_cr(line).len() implies without_cr(line)[j]
                != '\n' by {
                assert(line.contains(line[j]));
            }
        } else {
            law_rows_read_hold_no_line_feed(text.skip(end as int + 1), i - 1);
        }
    } else {
        assert(text.take(end as int) =~= text);
    }
}

} // verus!
