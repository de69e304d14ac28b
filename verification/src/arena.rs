//! Growable byte arenas for the two geometry buffers of a model. Each append
//! adds exactly one record of the arena's stride.

use crate::bytes::{
    lemma_u32_le_at, lemma_word_len, put_u16, put_u32, u16_le, u32_from_le, u32_le,
};
use crate::index::{index_le, put_index, IndexType};
use crate::scene::{Vec2, Vec3, Vec4};
use vstd::prelude::*;

verus! {

/// The bytes of a vertex record without skinning data: the three words of the
/// position, then the two of the texture coordinate. The record is 20 bytes
/// long.
#[verifier::opaque]
pub open spec fn plain_vertex_le(position: Vec3, tex_coord: Vec2) -> Seq<u8> {
    u32_le(position[0]) + u32_le(position[1]) + u32_le(position[2]) + u32_le(tex_coord[0])
        + u32_le(tex_coord[1])
}

/// The bytes that end a vertex record with skinning data and bring it to its
/// stride: eight of them, all zero.
pub open spec fn skinning_pad() -> Seq<u8> {
    Seq::new(8, |i: int| 0u8)
}

/// The bytes of the skinning data of a vertex: the four joint numbers, then
/// the four weights, then the padding.
#[verifier::opaque]
pub open spec fn skinning_le(joints: [u16; 4], weights: Vec4) -> Seq<u8> {
    u16_le(joints[0]) + u16_le(joints[1]) + u16_le(joints[2]) + u16_le(joints[3]) + u32_le(
        weights[0],
    ) + u32_le(weights[1]) + u32_le(weights[2]) + u32_le(weights[3]) + skinning_pad()
}

/// The bytes of a vertex record with skinning data: the plain record, then
/// the skinning data. The record is 52 bytes long: 20 of the plain record, 8
/// of joint numbers, 16 of weights and 8 of padding.
pub open spec fn skinned_vertex_le(
    position: Vec3,
    tex_coord: Vec2,
    joints: [u16; 4],
    weights: Vec4,
) -> Seq<u8> {
    plain_vertex_le(position, tex_coord) + skinning_le(joints, weights)
}

proof fn lemma_run_len(run: Seq<u8>, a: Seq<u8>, b: Seq<u8>, c: Seq<u8>, d: Seq<u8>)
    ensures
        (run + a + b + c + d).len() == run.len() + a.len() + b.len() + c.len() + d.len(),
{
}

proof fn lemma_skinning_len(
    a: Seq<u8>,
    b: Seq<u8>,
    c: Seq<u8>,
    d: Seq<u8>,
    e: Seq<u8>,
    f: Seq<u8>,
    g: Seq<u8>,
    h: Seq<u8>,
    pad: Seq<u8>,
)
    requires
        a.len() == 2,
        b.len() == 2,
        c.len() == 2,
        d.len() == 2,
        e.len() == 4,
        f.len() == 4,
        g.len() == 4,
        h.len() == 4,
        pad.len() == 8,
    ensures
        (a + b + c + d + e + f + g + h + pad).len() == 32,
{
}

proof fn lemma_first_words(record: Seq<u8>, a: Seq<u8>, b: Seq<u8>, c: Seq<u8>, rest: Seq<u8>)
    requires
        record == a + b + c + rest,
        a.len() == 4,
        b.len() == 4,
        c.len() == 4,
    ensures
        record.subrange(0, 4) == a,
        record.subrange(4, 8) == b,
        record.subrange(8, 12) == c,
{
    assert(record.subrange(0, 4) =~= a);
    assert(record.subrange(4, 8) =~= b);
    assert(record.subrange(8, 12) =~= c);
}

proof fn lemma_part_of_record(before: Seq<u8>, record: Seq<u8>, tail: Seq<u8>, i: int, j: int)
    requires
        0 <= i <= j <= record.len(),
    ensures
        (before + (record + tail)).subrange(before.len() + i, before.len() + j)
            == record.subrange(i, j),
{
    assert((before + (record + tail)).subrange(before.len() + i, before.len() + j)
        =~= record.subrange(i, j));
}

/// A vertex record, with skinning data or without, starts with the three
/// words of its position, wherever in a buffer the record stands.
pub proof fn lemma_vertex_le_starts_with_position(
    position: Vec3,
    tex_coord: Vec2,
    joints: [u16; 4],
    weights: Vec4,
    before: Seq<u8>,
)
    ensures
        ({
            let at = before.len() as int;
            let plain = before + plain_vertex_le(position, tex_coord);
            let skinned = before + skinned_vertex_le(position, tex_coord, joints, weights);
            &&& u32_from_le(plain, at) == position[0]
            &&& u32_from_le(plain, at + 4) == position[1]
            &&& u32_from_le(plain, at + 8) == position[2]
            &&& u32_from_le(skinned, at) == position[0]
            &&& u32_from_le(skinned, at + 4) == position[1]
            &&& u32_from_le(skinned, at + 8) == position[2]
        }),
{
    let at = before.len() as int;
    let record = plain_vertex_le(position, tex_coord);
    let skinning = skinning_le(joints, weights);
    lemma_plain_vertex_le_len(position, tex_coord);
    lemma_word_len(0, position[0]);
    lemma_word_len(0, position[1]);
    lemma_word_len(0, position[2]);
    assert(record.subrange(0, 4) == u32_le(position[0]) && record.subrange(4, 8) == u32_le(
        position[1],
    ) && record.subrange(8, 12) == u32_le(position[2])) by {
        reveal(plain_vertex_le);
        let rest = u32_le(tex_coord[0]) + u32_le(tex_coord[1]);
        assert(record =~= u32_le(position[0]) + u32_le(position[1]) + u32_le(position[2])
            + rest);
        lemma_first_words(
            record,
            u32_le(position[0]),
            u32_le(position[1]),
            u32_le(position[2]),
            rest,
        );
    }
    let plain = before + record;
    let skinned = before + (record + skinning);
    assert(plain =~= before + (record + Seq::<u8>::empty()));
    lemma_part_of_record(before, record, Seq::empty(), 0, 4);
    lemma_part_of_record(before, record, Seq::empty(), 4, 8);
    lemma_part_of_record(before, record, Seq::empty(), 8, 12);
    lemma_part_of_record(before, record, skinning, 0, 4);
    lemma_part_of_record(before, record, skinning, 4, 8);
    lemma_part_of_record(before, record, skinning, 8, 12);
    lemma_u32_le_at(plain, at, position[0]);
    lemma_u32_le_at(plain, at + 4, position[1]);
    lemma_u32_le_at(plain, at + 8, position[2]);
    lemma_u32_le_at(skinned, at, position[0]);
    lemma_u32_le_at(skinned, at + 4, position[1]);
    lemma_u32_le_at(skinned, at + 8, position[2]);
}

/// A vertex record without skinning data takes 20 bytes.
pub proof fn lemma_plain_vertex_le_len(position: Vec3, tex_coord: Vec2)
    ensures
        plain_vertex_le(position, tex_coord).len() == 20,
{
    reveal(plain_vertex_le);
    let a = u32_le(position[0]);
    let b = u32_le(position[1]);
    let c = u32_le(position[2]);
    let d = u32_le(tex_coord[0]);
    let e = u32_le(tex_coord[1]);
    assert(a.len() == 4 && b.len() == 4 && c.len() == 4 && d.len() == 4 && e.len() == 4) by {
        lemma_word_len(0, position[0]);
        lemma_word_len(0, position[1]);
        lemma_word_len(0, position[2]);
        lemma_word_len(0, tex_coord[0]);
        lemma_word_len(0, tex_coord[1]);
    }
    lemma_run_len(a, b, c, d, e);
}

/// A vertex record with skinning data takes 52 bytes.
pub proof fn lemma_skinned_vertex_le_len(
    position: Vec3,
    tex_coord: Vec2,
    joints: [u16; 4],
    weights: Vec4,
)
    ensures
        skinned_vertex_le(position, tex_coord, joints, weights).len() == 52,
{
    reveal(skinning_le);
    lemma_plain_vertex_le_len(position, tex_coord);
    let a = u16_le(joints[0]);
    let b = u16_le(joints[1]);
    let c = u16_le(joints[2]);
    let d = u16_le(joints[3]);
    let e = u32_le(weights[0]);
    let f = u32_le(weights[1]);
    let g = u32_le(weights[2]);
    let h = u32_le(weights[3]);
    assert(a.len() == 2 && b.len() == 2 && c.len() == 2 && d.len() == 2) by {
        lemma_word_len(joints[0], 0);
        lemma_word_len(joints[1], 0);
        lemma_word_len(joints[2], 0);
        lemma_word_len(joints[3], 0);
    }
    assert(e.len() == 4 && f.len() == 4 && g.len() == 4 && h.len() == 4) by {
        lemma_word_len(0, weights[0]);
        lemma_word_len(0, weights[1]);
        lemma_word_len(0, weights[2]);
        lemma_word_len(0, weights[3]);
    }
    lemma_skinning_len(a, b, c, d, e, f, g, h, skinning_pad());
}

/// The vertex buffer of a model while it is being filled.
pub struct VertexArena {
    bytes: Vec<u8>,
}

impl View for VertexArena {
    type V = Seq<u8>;

    closed spec fn view(&self) -> Seq<u8> {
        self.bytes@
    }
}

impl VertexArena {
    /// An arena without records.
    pub fn new() -> (arena: VertexArena)
        ensures
            arena@ == Seq::<u8>::empty(),
    {
        VertexArena { bytes: Vec::new() }
    }

    /// The number of bytes in the arena.
    pub fn len(&self) -> (len: usize)
        ensures
            len == self@.len(),
    {
        self.bytes.len()
    }

    /// Appends a vertex record without skinning data.
    pub fn push(&mut self, position: &Vec3, tex_coord: &Vec2)
        ensures
            final(self)@ == old(self)@ + plain_vertex_le(*position, *tex_coord),
    {
        proof {
            reveal(plain_vertex_le);
        }
        put_u32(&mut self.bytes, position[0]);
        put_u32(&mut self.bytes, position[1]);
        put_u32(&mut self.bytes, position[2]);
        put_u32(&mut self.bytes, tex_coord[0]);
        put_u32(&mut self.bytes, tex_coord[1]);
        assert(self.bytes@ =~= old(self).bytes@ + plain_vertex_le(*position, *tex_coord));
    }

    /// Appends a vertex record with skinning data.
    pub fn push_skinned(
        &mut self,
        position: &Vec3,
        tex_coord: &Vec2,
        joints: &[u16; 4],
        weights: &Vec4,
    )
        ensures
            final(self)@ == old(self)@ + skinned_vertex_le(
                *position,
                *tex_coord,
                *joints,
                *weights,
            ),
    {
        proof {
            reveal(skinning_le);
        }
        self.push(position, tex_coord);
        let ghost plain = self.bytes@;
        put_u16(&mut self.bytes, joints[0]);
        put_u16(&mut self.bytes, joints[1]);
        put_u16(&mut self.bytes, joints[2]);
        put_u16(&mut self.bytes, joints[3]);
        put_u32(&mut self.bytes, weights[0]);
        put_u32(&mut self.bytes, weights[1]);
        put_u32(&mut self.bytes, weights[2]);
        put_u32(&mut self.bytes, weights[3]);
        let ghost data = self.bytes@;
        let mut pad: usize = 0;
        while pad < 8
            invariant
                pad <= 8,
                self.bytes@ == data + Seq::new(pad as nat, |i: int| 0u8),
            decreases 8 - pad,
        {
            self.bytes.push(0);
            pad += 1;
            assert(self.bytes@ =~= data + Seq::new(pad as nat, |i: int| 0u8));
        }
        assert(self.bytes@ =~= plain + skinning_le(*joints, *weights));
        assert(plain + skinning_le(*joints, *weights) =~= old(self).bytes@ + skinned_vertex_le(
            *position,
            *tex_coord,
            *joints,
            *weights,
        ));
    }

    /// Gives up the arena for its bytes.
    pub fn into_bytes(self) -> (bytes: Vec<u8>)
        ensures
            bytes@ == self@,
    {
        self.bytes
    }
}

/// The index buffer of a model while it is being filled.
pub struct IndexArena {
    ty: IndexType,
    bytes: Vec<u8>,
}

/// What an [`IndexArena`] stands for.
pub struct IndexArenaView {
    /// The width in which the arena takes its indices.
    pub index_type: IndexType,
    pub bytes: Seq<u8>,
}

impl View for IndexArena {
    type V = IndexArenaView;

    closed spec fn view(&self) -> IndexArenaView {
        IndexArenaView { index_type: self.ty, bytes: self.bytes@ }
    }
}

impl IndexArena {
    /// An arena without indices.
    pub fn new(ty: IndexType) -> (arena: IndexArena)
        ensures
            arena@ == (IndexArenaView { index_type: ty, bytes: Seq::<u8>::empty() }),
    {
        IndexArena { ty, bytes: Vec::new() }
    }

    /// The width in which the arena takes its indices.
    pub fn index_type(&self) -> (ty: IndexType)
        ensures
            ty == self@.index_type,
    {
        self.ty
    }

    /// The number of bytes in the arena.
    pub fn len(&self) -> (len: usize)
        ensures
            len == self@.bytes.len(),
    {
        self.bytes.len()
    }

    /// Appends one index, narrowed to the arena's width.
    pub fn push(&mut self, index: u32)
        ensures
            final(self)@ == (IndexArenaView {
                index_type: old(self)@.index_type,
                bytes: old(self)@.bytes + index_le(old(self)@.index_type, index),
            }),
    {
        put_index(&mut self.bytes, self.ty, index);
    }

    /// Gives up the arena for its bytes.
    pub fn into_bytes(self) -> (bytes: Vec<u8>)
        ensures
            bytes@ == self@.bytes,
    {
        self.bytes
    }
}

} // verus!
