//! How a file's text is cut into rows, and how rows are put together again.

use vstd::prelude::*;

verus! {

/// The number of characters before the first line feed.
pub open spec fn line_end(text: Seq<char>) -> nat
    decreases text.len(),
{
    if text.len() == 0 || text[0] == '\n' {
        0
    } else {
        1 + line_end(text.drop_first())
    }
}

/// `line` without a carriage return at its end.
pub open spec fn without_cr(line: Seq<char>) -> Seq<char> {
    if line.len() > 0 && line.last() == '\r' {
        line.drop_last()
    } else {
        line
    }
}

/// The lines of `text`. A line ends with a line feed, or a carriage return and a
/// line feed, neither of which belongs to it; the last one may lack that ending.
pub open spec fn lines(text: Seq<char>) -> Seq<Seq<char>>
    decreases text.len(),
{
    let end = line_end(text);
    if text.len() == 0 {
        seq![]
    } else if end < text.len() {
        seq![without_cr(text.take(end as int))] + lines(text.skip(end as int + 1))
    } else {
        seq![text]
    }
}

/// `rows` one after the other, with a line feed between each two.
pub open spec fn joined(rows: Seq<Seq<char>>) -> Seq<char>
    decreases rows.len(),
{
    if rows.len() == 0 {
        seq![]
    } else if rows.len() == 1 {
        rows[0]
    } else {
        rows[0].push('\n') + joined(rows.drop_first())
    }
}

/// Where the first line ends.
pub proof fn lemma_line_end(line: Seq<char>, rest: Seq<char>)
    requires
        !line.contains('\n'),
        rest.len() > 0 ==> rest[0] == '\n',
    ensures
        line_end(line + rest) == line.len(),
    decreases line.len(),
{
    if line.len() == 0 {
        assert(line + rest =~= rest);
    } else {
        let tail = line.drop_first();
        assert(line[0] != '\n');
        assert(!tail.contains('\n')) by {
            assert forall|i: int| 0 <= i < tail.len() implies tail[i] != '\n' by {
                assert(tail[i] == line[i + 1]);
            }
        }
        lemma_line_end(tail, rest);
        assert((line + rest).drop_first() =~= tail + rest);
    }
}

/// A line that is followed by a line feed.
pub proof fn lemma_lines_first(line: Seq<char>, rest: Seq<char>)
    requires
        !line.contains('\n'),
    ensures
        lines(line.push('\n') + rest) == seq![without_cr(line)] + lines(rest),
{
    let text = line.push('\n') + rest;
    let tail = seq!['\n'] + rest;
    assert(text =~= line + tail);
    lemma_line_end(line, tail);
    assert(text.take(line.len() as int) =~= line);
    assert(text.skip(line.len() as int + 1) =~= rest);
}

/// A last line without a line feed.
pub proof fn lemma_lines_last(line: Seq<char>)
    requires
        !line.contains('\n'),
    ensures
        lines(line) == if line.len() == 0 {
            seq![]
        } else {
            seq![line]
        },
{
    let none = Seq::<char>::empty();
    assert(line + none =~= line);
    lemma_line_end(line, none);
}

} // verus!
