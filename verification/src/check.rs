//! What makes a scene unfit for baking, and the pass that finds it.
//!
//! Faults are looked for in scene order: mesh by mesh, within a mesh primitive
//! by primitive and then the skin. The first one found is the one reported.
//! The size of the model is judged last, once every mesh is known to be sound.

use crate::error::BakeError;
use crate::scene::{tri_mode, Primitive, SourceSkin, TriangleMode};
use crate::select::Pick;
use vstd::prelude::*;

verus! {

/// The streams of a primitive fit together: the indices form whole triangles
/// and refer to vertices that the primitive has, and every attribute stream
/// has an entry for each vertex.
pub open spec fn is_consistent(primitive: Primitive, skinned: bool) -> bool {
    let vertices = primitive.positions->0@.len();
    let indices = primitive.indices->0@;
    &&& indices.len() % 3 == 0
    &&& forall|k: int| 0 <= k < indices.len() ==> indices[k] < vertices
    &&& vertices <= primitive.tex_coords->0@.len()
    &&& skinned ==> vertices <= primitive.joints->0@.len()
    &&& skinned ==> vertices <= primitive.weights->0@.len()
}

/// What is wrong with a primitive of a mesh that has a skin or has none.
/// Anything but a triangle list is a fault, whether it is made of points, of
/// lines, or of triangles in a fan or a strip.
pub open spec fn primitive_fault(primitive: Primitive, skinned: bool) -> Option<BakeError> {
    if !primitive.is_triangle_list() {
        Some(BakeError::NotTriangleList)
    } else if primitive.indices is None {
        Some(BakeError::MissingIndices)
    } else if primitive.positions is None {
        Some(BakeError::MissingPositions)
    } else if primitive.tex_coords is None {
        Some(BakeError::MissingTexCoords)
    } else if skinned && primitive.joints is None {
        Some(BakeError::MissingJoints)
    } else if skinned && primitive.weights is None {
        Some(BakeError::MissingWeights)
    } else if !is_consistent(primitive, skinned) {
        Some(BakeError::Malformed)
    } else {
        None
    }
}

/// The number of joints of a skin that are looked at when joints are paired
/// with matrices one by one: all of them, or one more than there are matrices,
/// since a joint is taken before the matrix for it is found missing.
pub open spec fn examined_joints(joints: nat, matrices: nat) -> nat {
    if joints <= matrices {
        joints
    } else {
        matrices + 1
    }
}

/// The number of joints of a skin that are paired with a matrix.
pub open spec fn paired_joints(joints: nat, matrices: nat) -> nat {
    if joints <= matrices {
        joints
    } else {
        matrices
    }
}

/// What is wrong with a skin.
pub open spec fn skin_fault(skin: SourceSkin) -> Option<BakeError> {
    match skin.inverse_binds {
        None => Some(BakeError::MissingInverseBinds),
        Some(matrices) => if exists|j: int|
            0 <= j < examined_joints(skin.joints@.len(), matrices@.len())
                && #[trigger] skin.joints@[j] is None {
            Some(BakeError::UnnamedJoint)
        } else {
            None
        },
    }
}

/// The first fault among the first `n` entries of `faults`.
pub open spec fn first_fault(faults: Seq<Option<BakeError>>, n: int) -> Option<BakeError>
    decreases n,
{
    if n <= 0 {
        None
    } else {
        match first_fault(faults, n - 1) {
            Some(error) => Some(error),
            None => faults[n - 1],
        }
    }
}

/// The fault of each primitive of a mesh.
pub open spec fn primitive_faults(primitives: Seq<Primitive>, skinned: bool) -> Seq<
    Option<BakeError>,
> {
    Seq::new(primitives.len(), |p: int| primitive_fault(primitives[p], skinned))
}

/// What is wrong with a pick: the fault of its first faulty primitive, or
/// else that of its skin.
pub open spec fn pick_fault(pick: Pick) -> Option<BakeError> {
    let primitives = pick.mesh.primitives@;
    match first_fault(primitive_faults(primitives, pick.skin is Some), primitives.len() as int) {
        Some(error) => Some(error),
        None => match pick.skin {
            Some(skin) => skin_fault(*skin),
            None => None,
        },
    }
}

/// The fault of each pick.
pub open spec fn pick_faults(picks: Seq<Pick>) -> Seq<Option<BakeError>> {
    Seq::new(picks.len(), |m: int| pick_fault(picks[m]))
}

/// The indices that the first `n` primitives of a mesh bring to the model.
pub open spec fn indices_in(primitives: Seq<Primitive>, n: int) -> nat
    decreases n,
{
    if n <= 0 {
        0
    } else if primitives[n - 1].is_triangle_list() {
        indices_in(primitives, n - 1) + primitives[n - 1].index_count()
    } else {
        indices_in(primitives, n - 1)
    }
}

/// The vertices that the first `n` primitives of a mesh bring to the model.
pub open spec fn vertices_in(primitives: Seq<Primitive>, n: int) -> nat
    decreases n,
{
    if n <= 0 {
        0
    } else if primitives[n - 1].is_triangle_list() {
        vertices_in(primitives, n - 1) + primitives[n - 1].vertex_count()
    } else {
        vertices_in(primitives, n - 1)
    }
}

/// The number of indices of the mesh of a pick.
pub open spec fn pick_indices(pick: Pick) -> nat {
    indices_in(pick.mesh.primitives@, pick.mesh.primitives@.len() as int)
}

/// The number of vertices of the mesh of a pick.
pub open spec fn pick_vertices(pick: Pick) -> nat {
    vertices_in(pick.mesh.primitives@, pick.mesh.primitives@.len() as int)
}

/// The number of indices of the first `n` picks.
pub open spec fn indices_upto(picks: Seq<Pick>, n: int) -> nat
    decreases n,
{
    if n <= 0 {
        0
    } else {
        indices_upto(picks, n - 1) + pick_indices(picks[n - 1])
    }
}

/// The number of vertices of the first `n` picks.
pub open spec fn vertices_upto(picks: Seq<Pick>, n: int) -> nat
    decreases n,
{
    if n <= 0 {
        0
    } else {
        vertices_upto(picks, n - 1) + pick_vertices(picks[n - 1])
    }
}

/// The picks hold more indices or more vertices than a 32-bit count can tell.
pub open spec fn too_large(picks: Seq<Pick>) -> bool {
    ||| indices_upto(picks, picks.len() as int) > u32::MAX
    ||| vertices_upto(picks, picks.len() as int) > u32::MAX
}

/// What is wrong with the picks that go into a model: the fault of the first
/// faulty pick, or else their size.
pub open spec fn picks_fault(picks: Seq<Pick>) -> Option<BakeError> {
    match first_fault(pick_faults(picks), picks.len() as int) {
        Some(error) => Some(error),
        None => if too_large(picks) {
            Some(BakeError::TooLarge)
        } else {
            None
        },
    }
}

/// Once a fault is found among the first entries, it stays the first fault
/// however many entries follow.
pub proof fn lemma_first_fault_stays(faults: Seq<Option<BakeError>>, found: int, n: int)
    requires
        0 <= found <= n,
        first_fault(faults, found) is Some,
    ensures
        first_fault(faults, n) == first_fault(faults, found),
    decreases n,
{
    if found < n {
        lemma_first_fault_stays(faults, found, n - 1);
    }
}

/// There is no first fault exactly when no entry is a fault.
pub proof fn lemma_first_fault_none(faults: Seq<Option<BakeError>>, n: int)
    ensures
        first_fault(faults, n) is None <==> forall|i: int| 0 <= i < n ==> faults[i] is None,
    decreases n,
{
    if n > 0 {
        lemma_first_fault_none(faults, n - 1);
    }
}

/// The running counts never decrease from one primitive to the next.
pub proof fn lemma_counts_in_grow(primitives: Seq<Primitive>, i: int, n: int)
    requires
        i <= n,
    ensures
        indices_in(primitives, i) <= indices_in(primitives, n),
        vertices_in(primitives, i) <= vertices_in(primitives, n),
    decreases n - i,
{
    if i < n {
        lemma_counts_in_grow(primitives, i, n - 1);
    }
}

/// The running counts never decrease from one pick to the next.
pub proof fn lemma_counts_upto_grow(picks: Seq<Pick>, i: int, n: int)
    requires
        i <= n,
    ensures
        indices_upto(picks, i) <= indices_upto(picks, n),
        vertices_upto(picks, i) <= vertices_upto(picks, n),
    decreases n - i,
{
    if i < n {
        lemma_counts_upto_grow(picks, i, n - 1);
    }
}

/// Examines one primitive of a mesh that has a skin or has none.
#[verifier::loop_isolation(false)]
pub fn check_primitive(primitive: &Primitive, skinned: bool) -> (checked: Result<(), BakeError>)
    ensures
        match checked {
            Ok(_) => primitive_fault(*primitive, skinned) is None,
            Err(error) => primitive_fault(*primitive, skinned) == Some(error),
        },
{
    match tri_mode(primitive) {
        Some(TriangleMode::List) => {},
        _ => {
            return Err(BakeError::NotTriangleList);
        },
    }
    let indices = match &primitive.indices {
        Some(indices) => indices,
        None => {
            return Err(BakeError::MissingIndices);
        },
    };
    let positions = match &primitive.positions {
        Some(positions) => positions,
        None => {
            return Err(BakeError::MissingPositions);
        },
    };
    let tex_coords = match &primitive.tex_coords {
        Some(tex_coords) => tex_coords,
        None => {
            return Err(BakeError::MissingTexCoords);
        },
    };
    if skinned {
        match &primitive.joints {
            Some(joints) => {
                match &primitive.weights {
                    Some(weights) => {
                        if joints.len() < positions.len() || weights.len() < positions.len() {
                            return Err(BakeError::Malformed);
                        }
                    },
                    None => {
                        return Err(BakeError::MissingWeights);
                    },
                }
            },
            None => {
                return Err(BakeError::MissingJoints);
            },
        }
    }
    if indices.len() % 3 != 0 || tex_coords.len() < positions.len() {
        return Err(BakeError::Malformed);
    }
    let mut k: usize = 0;
    while k < indices.len()
        invariant
            k <= indices.len(),
            forall|i: int| 0 <= i < k ==> indices@[i] < positions@.len(),
        decreases indices.len() - k,
    {
        if indices[k] as usize >= positions.len() {
            assert(primitive.indices->0@[k as int] >= positions@.len());
            return Err(BakeError::Malformed);
        }
        k += 1;
    }
    Ok(())
}

/// Examines a skin.
#[verifier::loop_isolation(false)]
pub fn check_skin(skin: &SourceSkin) -> (checked: Result<(), BakeError>)
    ensures
        match checked {
            Ok(_) => skin_fault(*skin) is None,
            Err(error) => skin_fault(*skin) == Some(error),
        },
{
    let matrices = match &skin.inverse_binds {
        Some(matrices) => matrices,
        None => {
            return Err(BakeError::MissingInverseBinds);
        },
    };
    let examined: usize = if skin.joints.len() <= matrices.len() {
        skin.joints.len()
    } else {
        matrices.len() + 1
    };
    let mut j: usize = 0;
    while j < examined
        invariant
            j <= examined <= skin.joints@.len(),
            forall|i: int| 0 <= i < j ==> skin.joints@[i] is Some,
        decreases examined - j,
    {
        if skin.joints[j].is_none() {
            assert(skin.joints@[j as int] is None);
            return Err(BakeError::UnnamedJoint);
        }
        j += 1;
    }
    Ok(())
}

/// Examines one pick: its primitives in order, then its skin.
#[verifier::loop_isolation(false)]
pub fn check_pick(pick: &Pick) -> (checked: Result<(), BakeError>)
    ensures
        match checked {
            Ok(_) => pick_fault(*pick) is None,
            Err(error) => pick_fault(*pick) == Some(error),
        },
{
    let primitives = &pick.mesh.primitives;
    let skinned: bool = pick.skin.is_some();
    let ghost faults = primitive_faults(primitives@, skinned);
    let mut p: usize = 0;
    while p < primitives.len()
        invariant
            p <= primitives.len(),
            faults == primitive_faults(primitives@, skinned),
            first_fault(faults, p as int) is None,
        decreases primitives.len() - p,
    {
        match check_primitive(&primitives[p], skinned) {
            Ok(_) => {},
            Err(error) => {
                proof {
                    assert(faults[p as int] == Some(error));
                    lemma_first_fault_stays(faults, p + 1, primitives@.len() as int);
                }
                return Err(error);
            },
        }
        p += 1;
    }
    match pick.skin {
        Some(skin) => check_skin(skin),
        None => Ok(()),
    }
}

/// Examines the picks that go into a model, in order, and then their size.
pub fn check_picks(picks: &[Pick]) -> (checked: Result<(), BakeError>)
    ensures
        match checked {
            Ok(_) => picks_fault(picks@) is None,
            Err(error) => picks_fault(picks@) == Some(error),
        },
{
    let ghost faults = pick_faults(picks@);
    let mut indices: usize = 0;
    let mut vertices: usize = 0;
    let mut fits: bool = true;
    let mut m: usize = 0;
    while m < picks.len()
        invariant
            m <= picks.len(),
            faults == pick_faults(picks@),
            first_fault(faults, m as int) is None,
            fits <==> indices_upto(picks@, m as int) <= u32::MAX && vertices_upto(picks@, m as int)
                <= u32::MAX,
            fits ==> indices == indices_upto(picks@, m as int) && vertices == vertices_upto(
                picks@,
                m as int,
            ),
        decreases picks.len() - m,
    {
        match check_pick(&picks[m]) {
            Ok(_) => {},
            Err(error) => {
                proof {
                    assert(faults[m as int] == Some(error));
                    lemma_first_fault_stays(faults, m + 1, picks@.len() as int);
                }
                return Err(error);
            },
        }
        if fits {
            let primitives = &picks[m].mesh.primitives;
            let mut p: usize = 0;
            while p < primitives.len()
                invariant
                    m < picks.len(),
                    primitives@ == picks@[m as int].mesh.primitives@,
                    p <= primitives.len(),
                    fits <==> indices_upto(picks@, m as int) + indices_in(primitives@, p as int)
                        <= u32::MAX && vertices_upto(picks@, m as int) + vertices_in(
                        primitives@,
                        p as int,
                    ) <= u32::MAX,
                    fits ==> indices == indices_upto(picks@, m as int) + indices_in(
                        primitives@,
                        p as int,
                    ) && vertices == vertices_upto(picks@, m as int) + vertices_in(
                        primitives@,
                        p as int,
                    ),
                decreases primitives.len() - p,
            {
                let primitive = &primitives[p];
                let list: bool = match tri_mode(primitive) {
                    Some(TriangleMode::List) => true,
                    _ => false,
                };
                if fits && list {
                    let more_indices: usize = match &primitive.indices {
                        Some(stream) => stream.len(),
                        None => 0,
                    };
                    let more_vertices: usize = match &primitive.positions {
                        Some(stream) => stream.len(),
                        None => 0,
                    };
                    if more_indices > 0xffff_ffff - indices || more_vertices > 0xffff_ffff
                        - vertices {
                        fits = false;
                    } else {
                        indices = indices + more_indices;
                        vertices = vertices + more_vertices;
                    }
                }
                proof {
                    lemma_counts_in_grow(primitives@, p + 1, primitives@.len() as int);
                }
                p += 1;
            }
        }
        m += 1;
    }
    if fits {
        Ok(())
    } else {
        Err(BakeError::TooLarge)
    }
}

} // verus!
