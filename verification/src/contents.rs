//! The buffer that a screen is composed in before it is sent to the terminal.

use crate::text::text_len;
use vstd::prelude::*;
use vstd::utf8::{decode_utf8, encode_utf8_decode_utf8, encode_utf8_valid_utf8, valid_utf8};

verus! {

/// Text on its way to the terminal.
pub struct EditorContents {
    pub content: String,
}

/// Why bytes were not taken into the buffer.
#[derive(Clone, Copy, Debug, PartialEq, Eq, Structural)]
pub enum WriteError {
    /// They are not UTF-8, so none of them was written.
    WriteZero,
}

impl View for EditorContents {
    type V = Seq<char>;

    open spec fn view(&self) -> Seq<char> {
        self.content@
    }
}

/// `std::str::from_utf8` succeeds exactly on valid UTF-8, and gives the text that
/// the bytes encode.
#[verifier::external_body]
fn utf8_text(bytes: &[u8]) -> (text: Option<&str>)
    ensures
        text is Some <==> valid_utf8(bytes@),
        text matches Some(text) ==> text@ == decode_utf8(bytes@),
{
    std::str::from_utf8(bytes).ok()
}

impl EditorContents {
    /// An empty buffer.
    pub fn new() -> (contents: Self)
        ensures
            contents@ == Seq::<char>::empty(),
    {
        EditorContents { content: String::new() }
    }

    /// Appends a character.
    pub fn push(&mut self, ch: char)
        ensures
            final(self)@ == old(self)@.push(ch),
    {
        self.content.push(ch)
    }

    /// Appends a text.
    pub fn push_str(&mut self, string: &str)
        ensures
            final(self)@ == old(self)@ + string@,
    {
        self.content.append(string)
    }

    /// Appends the text that `buf` encodes, and tells how many bytes that was.
    /// Bytes that are not UTF-8 are refused as a whole.
    pub fn write(&mut self, buf: &[u8]) -> (written: Result<usize, WriteError>)
        ensures
            valid_utf8(buf@) ==> written == Ok::<usize, WriteError>(buf@.len() as usize)
                && final(self)@ == old(self)@ + decode_utf8(buf@),
            !valid_utf8(buf@) ==> written == Err::<usize, WriteError>(WriteError::WriteZero)
                && final(self)@ == old(self)@,
    {
        match utf8_text(buf) {
            Some(text) => {
                self.content.append(text);
                proof {
                    vstd::utf8::decode_utf8_encode_utf8(buf@);
                }
                Ok(text_len(text))
            },
            None => Err(WriteError::WriteZero),
        }
    }

    /// Appends a control sequence.
    pub fn queue(&mut self, sequence: &str)
        ensures
            final(self)@ == old(self)@ + sequence@,
    {
        proof {
            encode_utf8_valid_utf8(sequence@);
            encode_utf8_decode_utf8(sequence@);
        }
        let written = self.write(sequence.as_bytes());
        assert(written is Ok);
    }

    /// Empties the buffer, once what it held has been sent.
    pub fn clear(&mut self)
        ensures
            final(self)@ == Seq::<char>::empty(),
    {
        self.content = String::new();
    }
}

} // verus!
