//! Little-endian encoding of the 16-bit and 32-bit words the model buffers are
//! made of.

use vstd::prelude::*;

verus! {

/// The two bytes of `x`, least significant first.
pub open spec fn u16_le(x: u16) -> Seq<u8> {
    seq![(x % 256) as u8, (x / 256) as u8]
}

/// The four bytes of `x`, least significant first.
pub open spec fn u32_le(x: u32) -> Seq<u8> {
    seq![
        (x % 256) as u8,
        (x / 256 % 256) as u8,
        (x / 65536 % 256) as u8,
        (x / 16777216) as u8,
    ]
}

/// A 16-bit word takes two bytes and a 32-bit word four.
pub proof fn lemma_word_len(x: u16, y: u32)
    ensures
        u16_le(x).len() == 2,
        u32_le(y).len() == 4,
{
}

/// The 16-bit value whose little-endian bytes start at `at` in `bytes`.
pub open spec fn u16_from_le(bytes: Seq<u8>, at: int) -> u16
    recommends
        0 <= at,
        at + 2 <= bytes.len(),
{
    (bytes[at] + 256 * bytes[at + 1]) as u16
}

/// The 32-bit value whose little-endian bytes start at `at` in `bytes`.
pub open spec fn u32_from_le(bytes: Seq<u8>, at: int) -> u32
    recommends
        0 <= at,
        at + 4 <= bytes.len(),
{
    (bytes[at] + 256 * bytes[at + 1] + 65536 * bytes[at + 2] + 16777216 * bytes[at + 3]) as u32
}

/// A 32-bit word is read back from wherever its four bytes stand.
pub proof fn lemma_u32_le_at(buffer: Seq<u8>, at: int, x: u32)
    requires
        0 <= at,
        at + 4 <= buffer.len(),
        buffer.subrange(at, at + 4) == u32_le(x),
    ensures
        u32_from_le(buffer, at) == x,
{
    let word = buffer.subrange(at, at + 4);
    assert(buffer[at] == word[0]);
    assert(buffer[at + 1] == word[1]);
    assert(buffer[at + 2] == word[2]);
    assert(buffer[at + 3] == word[3]);
}

/// The bytes of a run of 16-bit words, each least significant byte first.
pub open spec fn u16s_le(words: Seq<u16>) -> Seq<u8> {
    Seq::new(2 * words.len(), |i: int| u16_le(words[i / 2])[i % 2])
}

/// The bytes of a run of 32-bit words, each least significant byte first.
pub open spec fn u32s_le(words: Seq<u32>) -> Seq<u8> {
    Seq::new(4 * words.len(), |i: int| u32_le(words[i / 4])[i % 4])
}

/// Encoding a run extended by one word appends that word's bytes.
pub proof fn lemma_u16s_le_push(words: Seq<u16>, x: u16)
    ensures
        u16s_le(words.push(x)) == u16s_le(words) + u16_le(x),
{
    assert(u16s_le(words.push(x)) =~= u16s_le(words) + u16_le(x));
}

/// Encoding a run extended by one word appends that word's bytes.
pub proof fn lemma_u32s_le_push(words: Seq<u32>, x: u32)
    ensures
        u32s_le(words.push(x)) == u32s_le(words) + u32_le(x),
{
    assert(u32s_le(words.push(x)) =~= u32s_le(words) + u32_le(x));
}

/// Every word of an encoded run decodes to itself at its own offset.
pub proof fn lemma_u16s_le_decode(words: Seq<u16>, k: int)
    requires
        0 <= k < words.len(),
    ensures
        u16_from_le(u16s_le(words), 2 * k) == words[k],
{
    let bytes = u16s_le(words);
    assert(bytes[2 * k] == u16_le(words[k])[0]);
    assert(bytes[2 * k + 1] == u16_le(words[k])[1]);
}

/// Every word of an encoded run decodes to itself at its own offset.
pub proof fn lemma_u32s_le_decode(words: Seq<u32>, k: int)
    requires
        0 <= k < words.len(),
    ensures
        u32_from_le(u32s_le(words), 4 * k) == words[k],
{
    let bytes = u32s_le(words);
    assert(bytes[4 * k] == u32_le(words[k])[0]);
    assert(bytes[4 * k + 1] == u32_le(words[k])[1]);
    assert(bytes[4 * k + 2] == u32_le(words[k])[2]);
    assert(bytes[4 * k + 3] == u32_le(words[k])[3]);
}

/// Appends the two bytes of `x` to `buf`.
pub fn put_u16(buf: &mut Vec<u8>, x: u16)
    ensures
        final(buf)@ == old(buf)@ + u16_le(x),
{
    let lo: u8 = (x & 0xff) as u8;
    let hi: u8 = (x >> 8) as u8;
    assert(x & 0xff == x % 256 && x >> 8 == x / 256) by (bit_vector);
    buf.push(lo);
    buf.push(hi);
    assert(buf@ =~= old(buf)@ + u16_le(x));
}

/// Appends the four bytes of `x` to `buf`.
pub fn put_u32(buf: &mut Vec<u8>, x: u32)
    ensures
        final(buf)@ == old(buf)@ + u32_le(x),
{
    let b0: u8 = (x & 0xff) as u8;
    let b1: u8 = ((x >> 8) & 0xff) as u8;
    let b2: u8 = ((x >> 16) & 0xff) as u8;
    let b3: u8 = (x >> 24) as u8;
    assert(x & 0xff == x % 256 && (x >> 8) & 0xff == x / 256 % 256 && (x >> 16) & 0xff == x / 65536
        % 256 && x >> 24 == x / 16777216) by (bit_vector);
    buf.push(b0);
    buf.push(b1);
    buf.push(b2);
    buf.push(b3);
    assert(buf@ =~= old(buf)@ + u32_le(x));
}

} // verus!
