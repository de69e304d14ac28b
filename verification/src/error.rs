//! The reasons for which a bake is abandoned.

use vstd::prelude::*;

verus! {

/// Why a scene cannot be baked. Each of these stops the whole bake: no part of
/// a model is produced.
#[derive(Clone, Copy, Debug, PartialEq, Eq, Hash, Structural)]
pub enum BakeError {
    /// A primitive made of triangles has no positions.
    MissingPositions,
    /// A triangle list has no indices.
    MissingIndices,
    /// A triangle list has no texture coordinates.
    MissingTexCoords,
    /// A primitive of a skinned mesh has no joints.
    MissingJoints,
    /// A primitive of a skinned mesh has no weights.
    MissingWeights,
    /// A skin has no inverse-bind matrices.
    MissingInverseBinds,
    /// A joint that is paired with an inverse-bind matrix has no name.
    UnnamedJoint,
    /// A primitive is not a triangle list: it is made of points, of lines, or
    /// of triangles in a fan or a strip.
    NotTriangleList,
    /// The streams of a primitive do not fit together: the indices do not
    /// form whole triangles, an index refers to a vertex that the primitive
    /// does not have, or an attribute stream is shorter than the positions.
    Malformed,
    /// The model would hold more indices or vertices than a 32-bit count can
    /// tell.
    TooLarge,
}

} // verus!
