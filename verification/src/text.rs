//! Text as the editor measures it: a `String` is a sequence of characters, and
//! a position in it is a byte offset of its UTF-8 encoding.

use vstd::prelude::*;
use vstd::utf8::{decode_utf8, encode_utf8, is_ascii_chars, is_char_boundary, valid_utf8};

verus! {

/// `String::push` appends one character to the end of the string. Running out
/// of memory is not modelled.
pub assume_specification[ String::push ](text: &mut String, ch: char)
    ensures
        final(text)@ == old(text)@.push(ch),
;

/// The characters of an optional text.
pub open spec fn optional(text: Option<String>) -> Option<Seq<char>> {
    match text {
        Some(text) => Some(text@),
        None => None,
    }
}

/// The characters of an optional borrowed text.
pub open spec fn optional_str(text: Option<&str>) -> Option<Seq<char>> {
    match text {
        Some(text) => Some(text@),
        None => None,
    }
}

/// The number of bytes that `text` takes up.
pub open spec fn byte_len(text: Seq<char>) -> nat {
    encode_utf8(text).len()
}

/// Byte offset `at` lies within `text` and does not cut a character in two.
pub open spec fn on_boundary(text: Seq<char>, at: int) -> bool {
    is_char_boundary(encode_utf8(text), at)
}

/// The characters of `text` that lie before byte offset `at`.
pub open spec fn before(text: Seq<char>, at: int) -> Seq<char> {
    decode_utf8(encode_utf8(text).subrange(0, at))
}

/// The characters of `text` from byte offset `at` on.
pub open spec fn after(text: Seq<char>, at: int) -> Seq<char> {
    decode_utf8(encode_utf8(text).subrange(at, byte_len(text) as int))
}

/// Encoding distributes over concatenation.
pub proof fn lemma_encode_concat(left: Seq<char>, right: Seq<char>)
    ensures
        encode_utf8(left + right) == encode_utf8(left) + encode_utf8(right),
        byte_len(left + right) == byte_len(left) + byte_len(right),
    decreases left.len(),
{
    if left.len() == 0 {
        assert(left + right =~= right);
    } else {
        lemma_encode_concat(left.drop_first(), right);
        assert((left + right).drop_first() =~= left.drop_first() + right);
    }
}

/// A boundary cuts a text into two halves that make it up again.
pub proof fn lemma_halves(text: Seq<char>, at: int)
    requires
        on_boundary(text, at),
    ensures
        0 <= at <= byte_len(text),
        text == before(text, at) + after(text, at),
        byte_len(before(text, at)) == at,
        byte_len(after(text, at)) == byte_len(text) - at,
{
    let bytes = encode_utf8(text);
    vstd::utf8::encode_utf8_valid_utf8(text);
    vstd::utf8::encode_utf8_decode_utf8(text);
    lemma_boundary_range(bytes, at);
    vstd::utf8::valid_utf8_split(bytes, at);
    vstd::utf8::decode_utf8_split(bytes, at);
    vstd::utf8::decode_utf8_encode_utf8(bytes.subrange(0, at));
    vstd::utf8::decode_utf8_encode_utf8(bytes.subrange(at, bytes.len() as int));
}

proof fn lemma_boundary_range(bytes: Seq<u8>, at: int)
    requires
        valid_utf8(bytes),
        is_char_boundary(bytes, at),
    ensures
        0 <= at <= bytes.len(),
{
}

/// Where two texts meet is a boundary, and cutting there gives the two back.
pub proof fn lemma_seam(left: Seq<char>, right: Seq<char>)
    ensures
        on_boundary(left + right, byte_len(left) as int),
        before(left + right, byte_len(left) as int) == left,
        after(left + right, byte_len(left) as int) == right,
    decreases left.len(),
{
    let bytes = encode_utf8(left + right);
    lemma_encode_concat(left, right);
    vstd::utf8::encode_utf8_valid_utf8(left + right);
    assert(bytes.subrange(0, byte_len(left) as int) =~= encode_utf8(left));
    assert(bytes.subrange(byte_len(left) as int, bytes.len() as int) =~= encode_utf8(right));
    vstd::utf8::encode_utf8_decode_utf8(left);
    vstd::utf8::encode_utf8_decode_utf8(right);
    if left.len() > 0 {
        let rest = left.drop_first();
        lemma_seam(rest, right);
        assert((left + right).drop_first() =~= rest + right);
        vstd::utf8::encode_utf8_first_scalar(left + right);
        assert(vstd::utf8::pop_first_scalar(bytes) =~= encode_utf8(rest + right));
    }
}

/// A text never has more characters than bytes.
pub proof fn lemma_chars_within_bytes(text: Seq<char>)
    ensures
        text.len() <= byte_len(text),
    decreases text.len(),
{
    if text.len() > 0 {
        lemma_chars_within_bytes(text.drop_first());
    }
}

/// In a text of ASCII characters byte offsets and character indices coincide.
pub proof fn lemma_ascii_offsets(text: Seq<char>)
    requires
        is_ascii_chars(text),
    ensures
        byte_len(text) == text.len(),
        forall|at: int|
            0 <= at <= text.len() ==> {
                &&& #[trigger] on_boundary(text, at)
                &&& before(text, at) == text.take(at)
                &&& after(text, at) == text.skip(at)
            },
{
    vstd::utf8::is_ascii_chars_encode_utf8(text);
    assert forall|at: int| 0 <= at <= text.len() implies {
        &&& #[trigger] on_boundary(text, at)
        &&& before(text, at) == text.take(at)
        &&& after(text, at) == text.skip(at)
    } by {
        let left = text.take(at);
        let right = text.skip(at);
        assert(left + right =~= text);
        vstd::utf8::is_ascii_chars_encode_utf8(left);
        lemma_seam(left, right);
    }
}

/// The two ends of a text are boundaries.
pub proof fn lemma_ends(text: Seq<char>)
    ensures
        on_boundary(text, 0),
        before(text, 0) == Seq::<char>::empty(),
        after(text, 0) == text,
        on_boundary(text, byte_len(text) as int),
        before(text, byte_len(text) as int) == text,
        after(text, byte_len(text) as int) == Seq::<char>::empty(),
{
    let none = Seq::<char>::empty();
    lemma_seam(none, text);
    assert(none + text =~= text);
    lemma_seam(text, none);
    assert(text + none =~= text);
}

/// A boundary before a cut is still a boundary of what stays on its left.
pub proof fn lemma_boundary_of_prefix(text: Seq<char>, start: int, end: int)
    requires
        on_boundary(text, start),
        on_boundary(text, end),
        start <= end,
    ensures
        on_boundary(before(text, end), start),
{
    let bytes = encode_utf8(text);
    let head = before(text, end);
    lemma_halves(text, start);
    lemma_halves(text, end);
    lemma_encode_concat(head, after(text, end));
    lemma_ends(head);
    if start < end {
        vstd::utf8::encode_utf8_valid_utf8(text);
        vstd::utf8::encode_utf8_valid_utf8(head);
        vstd::utf8::is_char_boundary_iff_not_is_continuation_byte(bytes, start);
        vstd::utf8::is_char_boundary_iff_not_is_continuation_byte(encode_utf8(head), start);
    }
}

/// The characters of `text` between two byte offsets.
pub open spec fn between(text: Seq<char>, start: int, end: int) -> Seq<char> {
    after(before(text, end), start)
}

/// Both ends of a range lie on boundaries of `text`, in order.
pub open spec fn is_range(text: Seq<char>, start: int, end: int) -> bool {
    on_boundary(text, start) && on_boundary(text, end) && start <= end
}

/// The decimal digit for `value`, which is below ten.
pub open spec fn digit(value: nat) -> char {
    (48 + value) as char
}

/// `value` written in decimal, without leading zeros.
pub open spec fn decimal(value: nat) -> Seq<char>
    decreases value,
{
    if value < 10 {
        seq![digit(value)]
    } else {
        decimal(value / 10).push(digit(value % 10))
    }
}

/// The same character `count` times.
pub open spec fn repeated(ch: char, count: int) -> Seq<char> {
    Seq::new(count as nat, |i: int| ch)
}

/// `word` stands in `text` from character `at` on.
pub open spec fn occurs_at(text: Seq<char>, word: Seq<char>, at: int) -> bool {
    &&& 0 <= at <= text.len() - word.len()
    &&& text.subrange(at, at + word.len()) == word
}

/// The first character at or after `from` where `word` stands in `text`.
pub open spec fn match_from(text: Seq<char>, word: Seq<char>, from: int) -> Option<int>
    decreases text.len() - word.len() - from + 1,
{
    if from + word.len() > text.len() {
        None
    } else if occurs_at(text, word, from) {
        Some(from)
    } else {
        match_from(text, word, from + 1)
    }
}

/// The first character where `word` stands in `text`.
pub open spec fn first_match(text: Seq<char>, word: Seq<char>) -> Option<int> {
    match_from(text, word, 0)
}

/// `first_match` finds the leftmost occurrence, and fails only where there is none.
pub proof fn lemma_first_match(text: Seq<char>, word: Seq<char>)
    ensures
        match first_match(text, word) {
            Some(at) => occurs_at(text, word, at) && forall|j: int|
                0 <= j < at ==> !occurs_at(text, word, j),
            None => forall|j: int| !occurs_at(text, word, j),
        },
{
    lemma_match_from(text, word, 0);
}

proof fn lemma_match_from(text: Seq<char>, word: Seq<char>, from: int)
    requires
        0 <= from,
    ensures
        match match_from(text, word, from) {
            Some(at) => from <= at && occurs_at(text, word, at) && forall|j: int|
                from <= j < at ==> !occurs_at(text, word, j),
            None => forall|j: int| from <= j ==> !occurs_at(text, word, j),
        },
    decreases text.len() - word.len() - from + 1,
{
    if from + word.len() > text.len() {
    } else if occurs_at(text, word, from) {
    } else {
        lemma_match_from(text, word, from + 1);
    }
}

/// The number of bytes in `text`.
pub fn text_len(text: &str) -> (len: usize)
    ensures
        len == byte_len(text@),
{
    text.as_bytes().len()
}

/// Splits `text` at byte offset `at`.
pub fn split_text(text: &str, at: usize) -> (halves: (&str, &str))
    requires
        on_boundary(text@, at as int),
    ensures
        halves.0@ == before(text@, at as int),
        halves.1@ == after(text@, at as int),
{
    let halves = text.split_at(at);
    proof {
        vstd::utf8::encode_utf8_decode_utf8(halves.0@);
        vstd::utf8::encode_utf8_decode_utf8(halves.1@);
    }
    halves
}

/// Whether byte offset `at` lies on a boundary of `text`.
pub fn at_boundary(text: &str, at: usize) -> (yes: bool)
    ensures
        yes == on_boundary(text@, at as int),
{
    text.is_char_boundary(at)
}

/// The part of `text` between two byte offsets.
pub fn slice_text(text: &str, start: usize, end: usize) -> (part: &str)
    requires
        is_range(text@, start as int, end as int),
    ensures
        part@ == between(text@, start as int, end as int),
{
    let (head, _) = split_text(text, end);
    proof {
        lemma_boundary_of_prefix(text@, start as int, end as int);
    }
    let (_, part) = split_text(head, start);
    part
}

/// Appends `ch` to `text` `count` times.
pub fn push_repeated(text: &mut String, ch: char, count: usize)
    ensures
        final(text)@ == old(text)@ + repeated(ch, count as int),
{
    let ghost start = text@;
    for i in 0..count
        invariant
            text@ == start + repeated(ch, i as int),
    {
        text.push(ch);
    }
}

/// `value` written in decimal.
pub fn decimal_text(value: usize) -> (text: String)
    ensures
        text@ == decimal(value as nat),
    decreases value,
{
    let last: char = (48u8 + (value % 10) as u8) as char;
    let mut text = if value < 10 {
        String::new()
    } else {
        decimal_text(value / 10)
    };
    text.push(last);
    text
}

/// The byte offset of the leftmost occurrence of `word` in `text`.
pub fn find_text(text: &str, word: &str) -> (found: Option<usize>)
    ensures
        match first_match(text@, word@) {
            Some(at) => found is Some && found->0 == byte_len(text@.take(at)),
            None => found is None,
        },
{
    let chars = chars_of(text);
    let pattern = chars_of(word);
    if pattern.len() > chars.len() {
        return None;
    }
    let mut at: usize = 0;
    while at <= chars.len() - pattern.len()
        invariant
            chars@ == text@,
            pattern@ == word@,
            at <= chars.len() - pattern.len() + 1,
            pattern.len() <= chars.len(),
            first_match(text@, word@) == match_from(text@, word@, at as int),
        decreases chars.len() + 1 - at,
    {
        let mut same: usize = 0;
        while same < pattern.len() && chars[at + same] == pattern[same]
            invariant
                at + pattern.len() <= chars.len(),
                same <= pattern.len(),
                chars@.subrange(at as int, at + same) == pattern@.take(same as int),
            decreases pattern.len() - same,
        {
            same += 1;
        }
        if same == pattern.len() {
            assert(pattern@.take(same as int) =~= pattern@);
            assert(occurs_at(text@, word@, at as int));
            let head = text.substring_char(0, at);
            assert(text@.subrange(0, at as int) =~= text@.take(at as int));
            return Some(text_len(head));
        }
        proof {
            if occurs_at(text@, word@, at as int) {
                assert(text@.subrange(at as int, at + word@.len())[same as int] == chars@[at
                    + same]);
            }
        }
        at += 1;
    }
    None
}

/// The characters of `text`, one by one.
pub fn chars_of(text: &str) -> (chars: Vec<char>)
    ensures
        chars@ == text@,
{
    let mut chars: Vec<char> = Vec::new();
    for ch in it: text.chars()
        invariant
            it.seq() == text@,
            chars@ == text@.take(it.index() as int),
    {
        chars.push(ch);
    }
    chars
}

} // verus!
