//! Words, the units that a SPIR-V module is made of, and text laid out in them.

use vstd::prelude::*;
use vstd::utf8::encode_utf8;

verus! {

/// The unit that a module is made of.
pub type Word = u32;

/// The byte at `i`, or zero behind the last one.
pub open spec fn byte_at(bytes: Seq<u8>, i: int) -> int {
    if 0 <= i < bytes.len() {
        bytes[i] as int
    } else {
        0
    }
}

/// The word made of the four bytes from `4 * i` on, the first of them lowest.
pub open spec fn word_at(bytes: Seq<u8>, i: int) -> Word {
    (byte_at(bytes, 4 * i) + 0x100 * byte_at(bytes, 4 * i + 1) + 0x1_0000 * byte_at(
        bytes,
        4 * i + 2,
    ) + 0x100_0000 * byte_at(bytes, 4 * i + 3)) as u32
}

/// `bytes` in words, ended by at least one zero byte and filled up with zero bytes.
pub open spec fn bytes_words(bytes: Seq<u8>) -> Seq<Word> {
    Seq::new(bytes.len() / 4 + 1, |i: int| word_at(bytes, i))
}

/// A text as an operand: its UTF-8 form in words.
pub open spec fn text_words(text: Seq<char>) -> Seq<Word> {
    bytes_words(encode_utf8(text))
}

/// The byte at `i` of what `words` hold, the lowest byte of a word first.
pub open spec fn unpacked_byte(words: Seq<Word>, i: int) -> int {
    let word = words[i / 4] as int;
    if i % 4 == 0 {
        word % 0x100
    } else if i % 4 == 1 {
        word / 0x100 % 0x100
    } else if i % 4 == 2 {
        word / 0x1_0000 % 0x100
    } else {
        word / 0x100_0000
    }
}

proof fn lemma_unpack(a: int, b: int, c: int, d: int)
    requires
        0 <= a < 0x100,
        0 <= b < 0x100,
        0 <= c < 0x100,
        0 <= d < 0x100,
    ensures
        ({
            let word = a + 0x100 * b + 0x1_0000 * c + 0x100_0000 * d;
            &&& word % 0x100 == a
            &&& word / 0x100 % 0x100 == b
            &&& word / 0x1_0000 % 0x100 == c
            &&& word / 0x100_0000 == d
        }),
{
    let word = a + 0x100 * b + 0x1_0000 * c + 0x100_0000 * d;
    assert(word % 0x100 == a);
    assert(word / 0x100 == b + 0x100 * c + 0x1_0000 * d);
    assert(word / 0x1_0000 == c + 0x100 * d);
}

/// Nothing of a text is lost in its words: byte `i` of its words is byte `i` of the text, and
/// every byte behind the text is zero, of which there is at least one.
pub proof fn law_text_words_hold_text(bytes: Seq<u8>, i: int)
    requires
        0 <= i < 4 * bytes_words(bytes).len(),
    ensures
        unpacked_byte(bytes_words(bytes), i) == byte_at(bytes, i),
        bytes.len() < 4 * bytes_words(bytes).len(),
{
    let w = i / 4;
    assert(bytes_words(bytes)[w] == word_at(bytes, w));
    let a = byte_at(bytes, 4 * w);
    let b = byte_at(bytes, 4 * w + 1);
    let c = byte_at(bytes, 4 * w + 2);
    let d = byte_at(bytes, 4 * w + 3);
    assert(0 <= a < 0x100 && 0 <= b < 0x100 && 0 <= c < 0x100 && 0 <= d < 0x100);
    assert(word_at(bytes, w) == a + 0x100 * b + 0x1_0000 * c + 0x100_0000 * d);
    lemma_unpack(a, b, c, d);
}

/// The byte at `i`, or zero behind the last one.
fn byte_or_zero(bytes: &[u8], i: usize) -> (byte: u32)
    ensures
        byte == byte_at(bytes@, i as int),
        byte < 0x100,
{
    if i < bytes.len() {
        bytes[i] as u32
    } else {
        0
    }
}

/// A text as an operand: its UTF-8 form in words, ended by a zero byte.
pub fn string_to_words(text: &str) -> (words: Vec<Word>)
    ensures
        words@ == text_words(text@),
{
    let bytes = text.as_bytes();
    let length: usize = bytes.len();
    let count: usize = length / 4;
    let mut words: Vec<Word> = Vec::new();
    let mut i: usize = 0;
    while i < count
        invariant
            i <= count,
            length == bytes@.len(),
            count == length / 4,
            words@ == Seq::new(i as nat, |k: int| word_at(bytes@, k)),
        decreases count - i,
    {
        let word: u32 = byte_or_zero(bytes, 4 * i) + 0x100 * byte_or_zero(bytes, 4 * i + 1)
            + 0x1_0000 * byte_or_zero(bytes, 4 * i + 2) + 0x100_0000 * byte_or_zero(
            bytes,
            4 * i + 3,
        );
        words.push(word);
        i = i + 1;
        assert(words@ =~= Seq::new(i as nat, |k: int| word_at(bytes@, k)));
    }
    let rest: usize = length % 4;
    let start: usize = length - rest;
    let first: u32 = if rest > 0 {
        bytes[start] as u32
    } else {
        0
    };
    let second: u32 = if rest > 1 {
        bytes[start + 1] as u32
    } else {
        0
    };
    let third: u32 = if rest > 2 {
        bytes[start + 2] as u32
    } else {
        0
    };
    words.push(first + 0x100 * second + 0x1_0000 * third);
    assert(words@ =~= bytes_words(bytes@));
    words
}

} // verus!
