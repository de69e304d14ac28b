//! The source scene, as an importer hands it over: nodes, their meshes and
//! skins, and the attribute streams of each primitive.
//!
//! Real numbers travel as the bit patterns of their IEEE 754 single-precision
//! form, one 32-bit word each, which is also how they are laid out in the
//! vertex buffer.

use vstd::prelude::*;

verus! {

/// Three real numbers, as bit patterns.
pub type Vec3 = [u32; 3];

/// Two real numbers, as bit patterns.
pub type Vec2 = [u32; 2];

/// Four real numbers, as bit patterns.
pub type Vec4 = [u32; 4];

/// A 4x4 matrix of real numbers, as bit patterns, column by column.
pub type Mat4 = [u32; 16];

/// A bounding sphere.
#[derive(Clone, Copy, Debug, PartialEq, Eq)]
pub struct Sphere {
    pub center: Vec3,
    pub radius: u32,
}

/// How the vertices of a primitive are assembled into shapes.
#[derive(Clone, Copy, Debug, PartialEq, Eq)]
pub enum PrimitiveMode {
    Points,
    Lines,
    LineLoop,
    LineStrip,
    Triangles,
    TriangleStrip,
    TriangleFan,
}

/// The ways in which a primitive can be made of triangles.
#[derive(Clone, Copy, Debug, PartialEq, Eq)]
pub enum TriangleMode {
    Fan,
    List,
    Strip,
}

/// One primitive of a mesh with the attribute streams that were found for it.
#[derive(Clone, Debug, PartialEq, Eq)]
pub struct Primitive {
    pub mode: PrimitiveMode,
    pub positions: Option<Vec<Vec3>>,
    pub indices: Option<Vec<u32>>,
    pub tex_coords: Option<Vec<Vec2>>,
    pub joints: Option<Vec<[u16; 4]>>,
    pub weights: Option<Vec<Vec4>>,
}

/// The mesh of a node.
#[derive(Clone, Debug, PartialEq, Eq)]
pub struct SourceMesh {
    pub name: Option<String>,
    pub primitives: Vec<Primitive>,
    /// A sphere around the points of the mesh, in the space of the mesh.
    pub bounds: Sphere,
}

/// The skin of a node: its joints by name, in declaration order, and the
/// inverse-bind matrices that were found for them.
#[derive(Clone, Debug, PartialEq, Eq)]
pub struct SourceSkin {
    pub joints: Vec<Option<String>>,
    pub inverse_binds: Option<Vec<Mat4>>,
}

/// One node of the scene.
#[derive(Clone, Debug, PartialEq, Eq)]
pub struct Node {
    pub mesh: Option<SourceMesh>,
    pub skin: Option<SourceSkin>,
    /// The local transform of the node, absent when it is the identity.
    pub transform: Option<Mat4>,
}

/// The triangle assembly of a mode, if it has one.
pub open spec fn spec_tri_mode(mode: PrimitiveMode) -> Option<TriangleMode> {
    match mode {
        PrimitiveMode::TriangleFan => Some(TriangleMode::Fan),
        PrimitiveMode::Triangles => Some(TriangleMode::List),
        PrimitiveMode::TriangleStrip => Some(TriangleMode::Strip),
        _ => None,
    }
}

impl Primitive {
    /// The primitive is made of triangles: a list, a fan or a strip. The
    /// index width of a model goes by the primitives of this kind.
    pub open spec fn is_triangular(self) -> bool {
        spec_tri_mode(self.mode) is Some
    }

    /// The primitive is a triangle list, the one kind that a model takes.
    pub open spec fn is_triangle_list(self) -> bool {
        self.mode == PrimitiveMode::Triangles
    }

    /// The number of vertices of the primitive: one per position.
    pub open spec fn vertex_count(self) -> nat {
        match self.positions {
            Some(positions) => positions@.len(),
            None => 0,
        }
    }

    /// The number of indices of the primitive.
    pub open spec fn index_count(self) -> nat {
        match self.indices {
            Some(indices) => indices@.len(),
            None => 0,
        }
    }
}

/// Tells how a primitive is made of triangles, or `None` when it is made of
/// points or lines.
pub fn tri_mode(primitive: &Primitive) -> (mode: Option<TriangleMode>)
    ensures
        mode == spec_tri_mode(primitive.mode),
{
    match primitive.mode {
        PrimitiveMode::TriangleFan => Some(TriangleMode::Fan),
        PrimitiveMode::Triangles => Some(TriangleMode::List),
        PrimitiveMode::TriangleStrip => Some(TriangleMode::Strip),
        _ => None,
    }
}

} // verus!
