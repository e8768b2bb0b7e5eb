//! The terminal's control sequences, as `crossterm` spells them.

use crate::text::decimal;
use crossterm::cursor::{Hide, MoveTo, Show};
use crossterm::style::{Attribute, SetAttribute};
use crossterm::terminal::{Clear, ClearType};
use crossterm::Command;
use vstd::prelude::*;

verus! {

/// Which cells are erased.
#[derive(Clone, Copy, Debug, PartialEq, Eq, Structural)]
pub enum Erase {
    /// All of them.
    All,
    /// Those from the cursor to the end of its line.
    UntilNewLine,
}

/// How the text that follows looks.
#[derive(Clone, Copy, Debug, PartialEq, Eq, Structural)]
pub enum Look {
    /// As by default.
    Reset,
    /// With foreground and background swapped.
    Reverse,
}

/// Escape and an opening bracket, which start every control sequence.
pub open spec fn csi() -> Seq<char> {
    seq!['\u{1b}', '[']
}

impl Erase {
    /// The control sequence that erases.
    pub open spec fn sequence(self) -> Seq<char> {
        match self {
            Erase::All => csi() + seq!['2', 'J'],
            Erase::UntilNewLine => csi() + seq!['K'],
        }
    }
}

impl Look {
    /// The control sequence that sets the look.
    pub open spec fn sequence(self) -> Seq<char> {
        match self {
            Look::Reset => csi() + seq!['0', 'm'],
            Look::Reverse => csi() + seq!['7', 'm'],
        }
    }
}

/// The control sequence that moves the cursor to a cell, counted from zero. The
/// terminal counts from one, and takes the line first.
pub open spec fn move_to_sequence(column: nat, line: nat) -> Seq<char> {
    csi() + decimal(line + 1) + seq![';'] + decimal(column + 1) + seq!['H']
}

/// The control sequence that hides the cursor.
pub open spec fn hide_sequence() -> Seq<char> {
    csi() + seq!['?', '2', '5', 'l']
}

/// The control sequence that shows the cursor.
pub open spec fn show_sequence() -> Seq<char> {
    csi() + seq!['?', '2', '5', 'h']
}

/// `<crossterm::terminal::Clear as crossterm::Command>::write_ansi` writes the
/// sequence `ESC [ 2 J` for all cells, and `ESC [ K` for those up to the new line.
#[verifier::external_body]
pub(crate) fn clear(erase: Erase) -> (sequence: String)
    ensures
        sequence@ == erase.sequence(),
{
    let kind = match erase {
        Erase::All => ClearType::All,
        Erase::UntilNewLine => ClearType::UntilNewLine,
    };
    let mut sequence = String::new();
    Clear(kind).write_ansi(&mut sequence).unwrap();
    sequence
}

/// `<crossterm::cursor::MoveTo as crossterm::Command>::write_ansi` writes the
/// sequence `ESC [ line ; column H`, both counted from one. It adds the one in
/// sixteen bits, where the largest number has no successor.
#[verifier::external_body]
pub(crate) fn move_to(column: u16, line: u16) -> (sequence: String)
    requires
        column < u16::MAX,
        line < u16::MAX,
    ensures
        sequence@ == move_to_sequence(column as nat, line as nat),
{
    let mut sequence = String::new();
    MoveTo(column, line).write_ansi(&mut sequence).unwrap();
    sequence
}

/// `<crossterm::cursor::Hide as crossterm::Command>::write_ansi` writes the
/// sequence `ESC [ ? 25 l`.
#[verifier::external_body]
pub(crate) fn hide_cursor() -> (sequence: String)
    ensures
        sequence@ == hide_sequence(),
{
    let mut sequence = String::new();
    Hide.write_ansi(&mut sequence).unwrap();
    sequence
}

/// `<crossterm::cursor::Show as crossterm::Command>::write_ansi` writes the
/// sequence `ESC [ ? 25 h`.
#[verifier::external_body]
pub(crate) fn show_cursor() -> (sequence: String)
    ensures
        sequence@ == show_sequence(),
{
    let mut sequence = String::new();
    Show.write_ansi(&mut sequence).unwrap();
    sequence
}

/// `<crossterm::style::SetAttribute as crossterm::Command>::write_ansi` writes the
/// sequence `ESC [ code m`, where the code is 0 for `Reset` and 7 for `Reverse`.
#[verifier::external_body]
pub(crate) fn attribute(look: Look) -> (sequence: String)
    ensures
        sequence@ == look.sequence(),
{
    let attribute = match look {
        Look::Reset => Attribute::Reset,
        Look::Reverse => Attribute::Reverse,
    };
    let mut sequence = String::new();
    SetAttribute(attribute).write_ansi(&mut sequence).unwrap();
    sequence
}

} // verus!
