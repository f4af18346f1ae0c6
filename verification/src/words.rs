//! Little-endian decoding of section contents into 32-bit words.

use vstd::prelude::*;

verus! {

/// The 32-bit word whose little-endian encoding is `b0 b1 b2 b3`.
pub open spec fn word_le(b0: u8, b1: u8, b2: u8, b3: u8) -> u32 {
    (b0 + 0x100 * b1 + 0x1_0000 * b2 + 0x100_0000 * b3) as u32
}

/// The words that `bytes` hold, four bytes each; a tail of fewer than four
/// bytes holds none.
pub open spec fn words_le(bytes: Seq<u8>) -> Seq<u32> {
    Seq::new(
        (bytes.len() / 4) as nat,
        |i: int| word_le(bytes[4 * i], bytes[4 * i + 1], bytes[4 * i + 2], bytes[4 * i + 3]),
    )
}

/// Decodes one word from four bytes, least significant first.
pub fn word_from_le(b0: u8, b1: u8, b2: u8, b3: u8) -> (word: u32)
    ensures
        word == word_le(b0, b1, b2, b3),
{
    let low: u32 = b0 as u32 + 0x100 * (b1 as u32);
    let high: u32 = b2 as u32 + 0x100 * (b3 as u32);
    low + 0x1_0000 * high
}

/// Decodes `bytes` into little-endian words.
pub fn decode_words(bytes: &[u8]) -> (words: Vec<u32>)
    ensures
        words@ == words_le(bytes@),
{
    let len: usize = bytes.len();
    let count: usize = len / 4;
    let mut words: Vec<u32> = Vec::new();
    let mut i: usize = 0;
    while i < count
        invariant
            len == bytes@.len(),
            count == len / 4,
            i <= count,
            words@.len() == i,
            forall|k: int| 0 <= k < i ==> words@[k] == words_le(bytes@)[k],
        decreases count - i,
    {
        let at: usize = 4 * i;
        let word = word_from_le(bytes[at], bytes[at + 1], bytes[at + 2], bytes[at + 3]);
        words.push(word);
        i += 1;
    }
    words
}

} // verus!
