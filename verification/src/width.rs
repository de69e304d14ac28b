//! The index width selector: one width for the whole model, taken from the
//! largest primitive.

use crate::error::BakeError;
use crate::index::{IndexType, MAX_U16_VERTICES};
use crate::scene::{tri_mode, Primitive};
use crate::select::Pick;
use vstd::prelude::*;

verus! {

/// Primitive `p` of pick `m`.
pub open spec fn primitive_at(picks: Seq<Pick>, m: int, p: int) -> Primitive {
    picks[m].mesh.primitives@[p]
}

/// Pick `m` exists and has a primitive `p`.
pub open spec fn in_scene(picks: Seq<Pick>, m: int, p: int) -> bool {
    0 <= m < picks.len() && 0 <= p < picks[m].mesh.primitives@.len()
}

/// Some primitive made of triangles has no positions.
pub open spec fn lacks_positions(picks: Seq<Pick>) -> bool {
    exists|m: int, p: int|
        in_scene(picks, m, p) && (#[trigger] primitive_at(picks, m, p)).is_triangular()
            && primitive_at(picks, m, p).positions is None
}

/// Every primitive made of triangles has at most 65 535 vertices.
pub open spec fn all_within_u16(picks: Seq<Pick>) -> bool {
    forall|m: int, p: int|
        in_scene(picks, m, p) && (#[trigger] primitive_at(picks, m, p)).is_triangular()
            ==> primitive_at(picks, m, p).vertex_count() <= 65535
}

/// The index width of the model baked from `picks`: 16 bits when no primitive
/// made of triangles has more than 65 535 vertices, else 32 bits.
pub open spec fn index_type_of(picks: Seq<Pick>) -> IndexType {
    if all_within_u16(picks) {
        IndexType::U16
    } else {
        IndexType::U32
    }
}

/// Decides the index width of a model from the vertex counts of all the
/// primitives that are made of triangles, before any byte is emitted. Fails
/// when one of them has no positions.
pub fn select_index_type(picks: &[Pick]) -> (chosen: Result<IndexType, BakeError>)
    ensures
        match chosen {
            Ok(ty) => !lacks_positions(picks@) && ty == index_type_of(picks@),
            Err(error) => lacks_positions(picks@) && error == BakeError::MissingPositions,
        },
{
    let mut tiny: bool = true;
    let mut m: usize = 0;
    while m < picks.len()
        invariant
            m <= picks.len(),
            forall|i: int, p: int|
                i < m && in_scene(picks@, i, p) && (#[trigger] primitive_at(
                    picks@,
                    i,
                    p,
                )).is_triangular() ==> primitive_at(picks@, i, p).positions is Some,
            tiny <==> forall|i: int, p: int|
                i < m && in_scene(picks@, i, p) && (#[trigger] primitive_at(
                    picks@,
                    i,
                    p,
                )).is_triangular() ==> primitive_at(picks@, i, p).vertex_count() <= 65535,
        decreases picks.len() - m,
    {
        let primitives = &picks[m].mesh.primitives;
        let mut p: usize = 0;
        while p < primitives.len()
            invariant
                m < picks.len(),
                primitives@ == picks@[m as int].mesh.primitives@,
                p <= primitives.len(),
                forall|i: int, q: int|
                    (i < m || (i == m && q < p)) && in_scene(picks@, i, q) && (
                    #[trigger] primitive_at(picks@, i, q)).is_triangular() ==> primitive_at(
                        picks@,
                        i,
                        q,
                    ).positions is Some,
                tiny <==> forall|i: int, q: int|
                    (i < m || (i == m && q < p)) && in_scene(picks@, i, q) && (
                    #[trigger] primitive_at(picks@, i, q)).is_triangular() ==> primitive_at(
                        picks@,
                        i,
                        q,
                    ).vertex_count() <= 65535,
            decreases primitives.len() - p,
        {
            let primitive = &primitives[p];
            assert(*primitive == primitive_at(picks@, m as int, p as int));
            if tri_mode(primitive).is_some() {
                match &primitive.positions {
                    None => {
                        assert(in_scene(picks@, m as int, p as int));
                        return Err(BakeError::MissingPositions);
                    },
                    Some(positions) => {
                        if positions.len() > MAX_U16_VERTICES {
                            tiny = false;
                            assert(in_scene(picks@, m as int, p as int));
                        }
                    },
                }
            }
            p += 1;
        }
        m += 1;
    }
    if tiny {
        Ok(IndexType::U16)
    } else {
        Ok(IndexType::U32)
    }
}

} // verus!
