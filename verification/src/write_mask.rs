//! The write mask: one bit per entry of the flattened index stream, set on the
//! single entry that is the designated writer of its vertex.
//!
//! A compute pass that runs one invocation per index entry lets only the
//! invocation whose bit is set store the result for its vertex, so no two
//! invocations ever store to the same slot.

use crate::bytes::{lemma_u32s_le_decode, lemma_u32s_le_push, put_u32, u32_from_le, u32s_le};
use std::collections::HashSet;
use vstd::prelude::*;

verus! {

/// Position `i` of `indices` holds a value that no earlier position holds.
pub open spec fn is_first_occurrence(indices: Seq<u32>, i: int) -> bool {
    &&& 0 <= i < indices.len()
    &&& forall|j: int| 0 <= j < i ==> indices[j] != indices[i]
}

/// For each position of the stream, whether it is the designated writer.
pub open spec fn first_occurrences(indices: Seq<u32>) -> Seq<bool> {
    Seq::new(indices.len(), |i: int| is_first_occurrence(indices, i))
}

/// The flag at position `i`, where every position past the end counts as unset.
pub open spec fn flag_at(flags: Seq<bool>, i: int) -> bool {
    0 <= i < flags.len() && flags[i]
}

/// How many 32-bit words hold `len` flags.
pub open spec fn mask_word_count(len: nat) -> nat {
    (len + 31) / 32
}

/// The word whose bit `b`, for each `b` below `n`, is the flag at position
/// `32 * k + b`, and whose other bits are clear.
pub open spec fn packed_word(flags: Seq<bool>, k: int, n: nat) -> u32
    decreases n,
{
    if n == 0 {
        0
    } else {
        let low = packed_word(flags, k, (n - 1) as nat);
        if flag_at(flags, 32 * k + n - 1) {
            low | (1u32 << ((n - 1) as u32))
        } else {
            low
        }
    }
}

/// The mask words of `flags`: word `k` carries flags `32 * k` to `32 * k + 31`.
pub open spec fn mask_words(flags: Seq<bool>) -> Seq<u32> {
    Seq::new(mask_word_count(flags.len()), |k: int| packed_word(flags, k, 32))
}

/// The mask bytes of `flags`.
pub open spec fn mask_bytes(flags: Seq<bool>) -> Seq<u8> {
    u32s_le(mask_words(flags))
}

/// The write mask of an index stream.
pub open spec fn write_mask_bytes(indices: Seq<u32>) -> Seq<u8> {
    mask_bytes(first_occurrences(indices))
}

/// Bit `b` of `word`.
pub open spec fn word_bit(word: u32, b: int) -> bool {
    (word >> (b as u32)) & 1 == 1
}

/// Bit `i` of a mask, as the consumer reads it: bit `i % 32` of the 32-bit
/// word number `i / 32`.
pub open spec fn mask_bit(mask: Seq<u8>, i: int) -> bool {
    word_bit(u32_from_le(mask, 4 * (i / 32)), i % 32)
}

proof fn lemma_packed_word_bits(flags: Seq<bool>, k: int, n: nat, b: int)
    requires
        n <= 32,
        0 <= b < 32,
    ensures
        word_bit(packed_word(flags, k, n), b) == (b < n && flag_at(flags, 32 * k + b)),
    decreases n,
{
    if n == 0 {
        let s = b as u32;
        assert((0u32 >> s) & 1 == 0) by (bit_vector);
    } else {
        lemma_packed_word_bits(flags, k, (n - 1) as nat, b);
        let low = packed_word(flags, k, (n - 1) as nat);
        let top = (n - 1) as u32;
        let s = b as u32;
        assert(((low | (1u32 << top)) >> s) & 1 == (if s == top {
            1u32
        } else {
            (low >> s) & 1
        })) by (bit_vector)
            requires
                top < 32,
                s < 32,
        ;
    }
}

/// Reading a mask back gives the flags it was packed from, and unset bits for
/// the padding after the last flag.
pub proof fn lemma_mask_bit(flags: Seq<bool>, i: int)
    requires
        0 <= i < 32 * mask_word_count(flags.len()),
    ensures
        mask_bytes(flags).len() == 4 * mask_word_count(flags.len()),
        mask_bit(mask_bytes(flags), i) == flag_at(flags, i),
{
    let k = i / 32;
    lemma_u32s_le_decode(mask_words(flags), k);
    lemma_packed_word_bits(flags, k, 32, i % 32);
}

/// Decoding the write mask of a stream marks exactly the first occurrences:
/// bit `i` is set if and only if `i` is a position of the stream whose value
/// appears at no earlier position.
pub proof fn lemma_write_mask_round_trip(indices: Seq<u32>, i: int)
    requires
        0 <= i < 32 * mask_word_count(indices.len()),
    ensures
        mask_bit(write_mask_bytes(indices), i) == is_first_occurrence(indices, i),
{
    lemma_mask_bit(first_occurrences(indices), i);
}

/// The least position of `indices` that holds `value`, or the length of the
/// stream when none does.
pub open spec fn first_position(indices: Seq<u32>, value: u32) -> int
    decreases indices.len(),
{
    if indices.len() == 0 {
        0
    } else {
        let before = first_position(indices.drop_last(), value);
        if before < indices.len() - 1 {
            before
        } else if indices.last() == value {
            indices.len() - 1
        } else {
            indices.len() as int
        }
    }
}

proof fn lemma_first_position(indices: Seq<u32>, value: u32)
    ensures
        0 <= first_position(indices, value) <= indices.len(),
        forall|j: int| 0 <= j < first_position(indices, value) ==> indices[j] != value,
        first_position(indices, value) < indices.len() ==> indices[first_position(
            indices,
            value,
        )] == value,
    decreases indices.len(),
{
    if indices.len() > 0 {
        let earlier = indices.drop_last();
        lemma_first_position(earlier, value);
        assert forall|j: int| 0 <= j < first_position(indices, value) implies indices[j]
            != value by {
            if j < earlier.len() {
                assert(earlier[j] == indices[j]);
            }
        }
    }
}

/// Every vertex index that occurs in the stream has exactly one designated
/// writer, and it is the earliest entry that refers to that vertex: among the
/// positions that hold the value found at `at`, the mask bit is set at the
/// least one and at no other.
pub proof fn lemma_one_writer_per_index(indices: Seq<u32>, at: int)
    requires
        0 <= at < indices.len(),
    ensures
        ({
            let mask = write_mask_bytes(indices);
            let writer = first_position(indices, indices[at]);
            &&& 0 <= writer <= at
            &&& indices[writer] == indices[at]
            &&& mask_bit(mask, writer)
            &&& forall|p: int|
                0 <= p < indices.len() && indices[p] == indices[at] ==> writer <= p
            &&& forall|p: int|
                0 <= p < indices.len() && indices[p] == indices[at] && p != writer ==> !mask_bit(
                    mask,
                    p,
                )
        }),
{
    let mask = write_mask_bytes(indices);
    let value = indices[at];
    let writer = first_position(indices, value);
    lemma_first_position(indices, value);
    assert(writer <= at);
    lemma_write_mask_round_trip(indices, writer);
    assert forall|p: int|
        0 <= p < indices.len() && indices[p] == value && p != writer implies !mask_bit(mask, p) by {
        lemma_write_mask_round_trip(indices, p);
    }
}

/// Marks, for each entry of the stream, whether its value is seen for the
/// first time.
pub fn writer_flags(indices: &[u32]) -> (flags: Vec<bool>)
    ensures
        flags@ == first_occurrences(indices@),
{
    let mut flags: Vec<bool> = Vec::new();
    let mut seen: HashSet<u32> = HashSet::new();
    let mut i: usize = 0;
    while i < indices.len()
        invariant
            i <= indices.len(),
            flags@.len() == i,
            forall|v: u32| seen@.contains(v) <==> exists|j: int| 0 <= j < i && indices@[j] == v,
            forall|j: int| 0 <= j < i ==> flags@[j] == is_first_occurrence(indices@, j),
        decreases indices.len() - i,
    {
        let index: u32 = indices[i];
        let known: bool = seen.contains(&index);
        flags.push(!known);
        seen.insert(index);
        i += 1;
    }
    assert(flags@ =~= first_occurrences(indices@));
    flags
}

/// Packs flags into mask words, flag `i` at bit `i % 32` of word `i / 32`,
/// with the bits after the last flag left clear.
pub fn pack_write_mask(flags: &[bool]) -> (mask: Vec<u8>)
    ensures
        mask@ == mask_bytes(flags@),
{
    let len: usize = flags.len();
    let words: usize = if len % 32 == 0 {
        len / 32
    } else {
        len / 32 + 1
    };
    let mut mask: Vec<u8> = Vec::new();
    let mut k: usize = 0;
    while k < words
        invariant
            len == flags@.len(),
            words == mask_word_count(len as nat),
            k <= words,
            mask@ == u32s_le(mask_words(flags@).take(k as int)),
        decreases words - k,
    {
        let base: usize = k * 32;
        let mut word: u32 = 0;
        let mut b: u32 = 0;
        while b < 32
            invariant
                len == flags@.len(),
                base == 32 * k,
                base < len,
                b <= 32,
                word == packed_word(flags@, k as int, b as nat),
            decreases 32 - b,
        {
            if (b as usize) < len - base && flags[base + b as usize] {
                word = word | (1u32 << b);
            }
            b += 1;
        }
        proof {
            let done = mask_words(flags@).take(k as int);
            lemma_u32s_le_push(done, word);
            assert(done.push(word) =~= mask_words(flags@).take(k + 1));
        }
        put_u32(&mut mask, word);
        k += 1;
    }
    assert(mask_words(flags@).take(words as int) =~= mask_words(flags@));
    mask
}

/// Builds the write mask of a flattened index stream: bit `i` is set exactly
/// when entry `i` is the first entry to refer to its vertex.
pub fn create_write_mask(indices: &[u32]) -> (mask: Vec<u8>)
    ensures
        mask@ == write_mask_bytes(indices@),
{
    let flags = writer_flags(indices);
    pack_write_mask(flags.as_slice())
}

} // verus!
