//! The two index encodings of a model and the bytes of an index stream in each.

use crate::bytes::{
    lemma_u16s_le_decode, lemma_u16s_le_push, lemma_u32s_le_decode, lemma_u32s_le_push, put_u16,
    put_u32, u16_from_le, u16_le, u16s_le, u32_from_le, u32_le, u32s_le,
};
use vstd::prelude::*;

verus! {

/// The width in which a model stores every one of its indices.
#[derive(Clone, Copy, Debug, PartialEq, Eq, Hash, Structural)]
pub enum IndexType {
    U16,
    U32,
}

/// The largest number of vertices that a primitive may have for 16-bit indices
/// to be chosen.
pub const MAX_U16_VERTICES: usize = 65535;

impl IndexType {
    /// The number of bytes that one index takes.
    pub open spec fn width(self) -> nat {
        match self {
            IndexType::U16 => 2,
            IndexType::U32 => 4,
        }
    }

    /// The number of bytes that one index takes.
    pub fn byte_width(self) -> (w: usize)
        ensures
            w == self.width(),
    {
        match self {
            IndexType::U16 => 2,
            IndexType::U32 => 4,
        }
    }
}

/// The value that `index` has once it is narrowed to the width of `ty`: itself
/// for 32 bits, its low 16 bits for 16.
pub open spec fn narrowed(ty: IndexType, index: u32) -> u32 {
    match ty {
        IndexType::U16 => index % 65536,
        IndexType::U32 => index,
    }
}

/// The bytes of one index in the encoding `ty`.
pub open spec fn index_le(ty: IndexType, index: u32) -> Seq<u8> {
    match ty {
        IndexType::U16 => u16_le(narrowed(ty, index) as u16),
        IndexType::U32 => u32_le(index),
    }
}

/// The bytes of an index stream in the encoding `ty`.
pub open spec fn indices_le(ty: IndexType, indices: Seq<u32>) -> Seq<u8> {
    match ty {
        IndexType::U16 => u16s_le(Seq::new(indices.len(), |k: int| narrowed(ty, indices[k]) as u16)),
        IndexType::U32 => u32s_le(indices),
    }
}

/// The index that an index buffer in the encoding `ty` holds at position `k`.
pub open spec fn index_at(ty: IndexType, buffer: Seq<u8>, k: int) -> u32 {
    match ty {
        IndexType::U16 => u16_from_le(buffer, 2 * k) as u32,
        IndexType::U32 => u32_from_le(buffer, 4 * k),
    }
}

/// A stream extended by one index encodes to the bytes of the stream followed
/// by the bytes of that index.
pub proof fn lemma_indices_le_push(ty: IndexType, indices: Seq<u32>, index: u32)
    ensures
        indices_le(ty, indices.push(index)) == indices_le(ty, indices) + index_le(ty, index),
{
    match ty {
        IndexType::U16 => {
            let narrow = Seq::new(indices.len(), |k: int| narrowed(ty, indices[k]) as u16);
            let longer = Seq::new(
                indices.push(index).len(),
                |k: int| narrowed(ty, indices.push(index)[k]) as u16,
            );
            assert(longer =~= narrow.push(narrowed(ty, index) as u16));
            lemma_u16s_le_push(narrow, narrowed(ty, index) as u16);
        },
        IndexType::U32 => {
            lemma_u32s_le_push(indices, index);
        },
    }
}

/// An encoded stream takes the chosen width for each of its entries.
pub proof fn lemma_indices_le_len(ty: IndexType, indices: Seq<u32>)
    ensures
        indices_le(ty, indices).len() == ty.width() * indices.len(),
        indices_le(ty, indices).len() / ty.width() == indices.len(),
{
    match ty {
        IndexType::U16 => {
            assert(indices_le(ty, indices).len() == 2 * indices.len());
        },
        IndexType::U32 => {
            assert(indices_le(ty, indices).len() == 4 * indices.len());
        },
    }
}

/// An encoded stream has one index of the chosen width per entry, and reading
/// entry `k` back gives the entry as narrowed, which never exceeds the entry.
pub proof fn lemma_indices_le_decode(ty: IndexType, indices: Seq<u32>, k: int)
    requires
        0 <= k < indices.len(),
    ensures
        indices_le(ty, indices).len() == ty.width() * indices.len(),
        index_at(ty, indices_le(ty, indices), k) == narrowed(ty, indices[k]),
        narrowed(ty, indices[k]) <= indices[k],
{
    match ty {
        IndexType::U16 => {
            let narrow = Seq::new(indices.len(), |k: int| narrowed(ty, indices[k]) as u16);
            lemma_u16s_le_decode(narrow, k);
        },
        IndexType::U32 => {
            lemma_u32s_le_decode(indices, k);
        },
    }
}

/// Appends one index to an index buffer in the encoding `ty`.
pub fn put_index(buffer: &mut Vec<u8>, ty: IndexType, index: u32)
    ensures
        final(buffer)@ == old(buffer)@ + index_le(ty, index),
{
    match ty {
        IndexType::U16 => {
            let low: u32 = index & 0xffff;
            assert(index & 0xffff == index % 65536) by (bit_vector);
            put_u16(buffer, low as u16);
        },
        IndexType::U32 => {
            put_u32(buffer, index);
        },
    }
}

} // verus!
