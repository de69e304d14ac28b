//! The baked model: its meshes and the three byte buffers a renderer binds.

use crate::index::{index_at, IndexType};
use crate::scene::{Mat4, Node, Sphere};
use crate::write_mask::mask_word_count;
use core::ops::Range;
use vstd::prelude::*;

verus! {

/// The most meshes that one model holds.
pub const MAX_MESHES: usize = 65535;

/// The bytes of one vertex record without skinning data: a position and a
/// texture coordinate, five 32-bit words.
pub const STRIDE: usize = 20;

/// The bytes of one vertex record with skinning data: the plain record, four
/// 16-bit joint numbers, four 32-bit weights, and eight bytes of padding.
pub const SKIN_STRIDE: usize = 52;

/// The bytes of one vertex record of a mesh, with or without a skin.
pub open spec fn stride(skinned: bool) -> nat {
    if skinned {
        52
    } else {
        20
    }
}

/// The bytes that one vertex record takes, with skinning data or without.
pub fn stride_of(skinned: bool) -> (bytes: usize)
    ensures
        bytes == stride(skinned),
{
    if skinned {
        SKIN_STRIDE
    } else {
        STRIDE
    }
}

/// The bytes that one vertex record of the mesh of a node takes: the wide
/// record when the node has a skin, else the plain one.
pub fn node_stride(node: &Node) -> (bytes: usize)
    ensures
        bytes == stride(node.skin is Some),
{
    stride_of(node.skin.is_some())
}

/// One joint of a skin: its name and its inverse-bind matrix.
#[derive(Clone, Debug, PartialEq, Eq)]
pub struct Joint {
    pub name: String,
    pub inverse_bind: Mat4,
}

/// What a [`Joint`] stands for.
pub struct JointView {
    pub name: Seq<char>,
    pub inverse_bind: Mat4,
}

/// What a run of joints stands for.
pub open spec fn joint_views(joints: Seq<Joint>) -> Seq<JointView> {
    Seq::new(joints.len(), |j: int| joints[j]@)
}

impl View for Joint {
    type V = JointView;

    open spec fn view(&self) -> JointView {
        JointView { name: self.name@, inverse_bind: self.inverse_bind }
    }
}

/// One mesh of a model.
#[derive(Clone, Debug, PartialEq, Eq)]
pub struct Mesh {
    name: Option<String>,
    index_start: u32,
    index_end: u32,
    vertex_count: u32,
    vertex_offset: u32,
    bounds: Sphere,
    transform: Option<Mat4>,
    skin: Option<Vec<Joint>>,
}

/// What a [`Mesh`] stands for.
pub struct MeshView {
    pub name: Option<Seq<char>>,
    /// The first entry of the mesh in the index stream of the model.
    pub index_start: u32,
    /// The entry after the last one of the mesh.
    pub index_end: u32,
    pub vertex_count: u32,
    /// The number of vertices that precede those of the mesh in the model.
    pub vertex_offset: u32,
    pub bounds: Sphere,
    /// The local transform, absent when it is the identity.
    pub transform: Option<Mat4>,
    /// The joints in declaration order, absent for a mesh without a skin.
    pub skin: Option<Seq<JointView>>,
}

impl MeshView {
    /// The bytes that one vertex record of the mesh takes.
    pub open spec fn stride(self) -> nat {
        stride(self.skin is Some)
    }
}

impl View for Mesh {
    type V = MeshView;

    closed spec fn view(&self) -> MeshView {
        MeshView {
            name: match self.name {
                Some(name) => Some(name@),
                None => None,
            },
            index_start: self.index_start,
            index_end: self.index_end,
            vertex_count: self.vertex_count,
            vertex_offset: self.vertex_offset,
            bounds: self.bounds,
            transform: self.transform,
            skin: match self.skin {
                Some(joints) => Some(joint_views(joints@)),
                None => None,
            },
        }
    }
}

impl Mesh {
    /// Puts a mesh together from its parts.
    pub fn new(
        name: Option<String>,
        index_range: Range<u32>,
        vertex_count: u32,
        vertex_offset: u32,
        bounds: Sphere,
        transform: Option<Mat4>,
        skin: Option<Vec<Joint>>,
    ) -> (mesh: Mesh)
        ensures
            mesh@ == (MeshView {
                name: match name {
                    Some(name) => Some(name@),
                    None => None,
                },
                index_start: index_range.start,
                index_end: index_range.end,
                vertex_count,
                vertex_offset,
                bounds,
                transform,
                skin: match skin {
                    Some(joints) => Some(joint_views(joints@)),
                    None => None,
                },
            }),
    {
        Mesh {
            name,
            index_start: index_range.start,
            index_end: index_range.end,
            vertex_count,
            vertex_offset,
            bounds,
            transform,
            skin,
        }
    }

    /// The name of the mesh, if it was given one.
    pub fn name(&self) -> (name: Option<&str>)
        ensures
            match name {
                Some(name) => self@.name == Some(name@),
                None => self@.name is None,
            },
    {
        match &self.name {
            Some(name) => Some(name.as_str()),
            None => None,
        }
    }

    /// The entries of the model's index stream that make up the mesh.
    pub fn index_range(&self) -> (range: Range<u32>)
        ensures
            range.start == self@.index_start,
            range.end == self@.index_end,
    {
        self.index_start..self.index_end
    }

    /// The number of vertices of the mesh.
    pub fn vertex_count(&self) -> (count: u32)
        ensures
            count == self@.vertex_count,
    {
        self.vertex_count
    }

    /// The number of vertices that precede those of the mesh in the model.
    pub fn vertex_offset(&self) -> (offset: u32)
        ensures
            offset == self@.vertex_offset,
    {
        self.vertex_offset
    }

    /// The sphere around the points of the mesh.
    pub fn bounds(&self) -> (bounds: Sphere)
        ensures
            bounds == self@.bounds,
    {
        self.bounds
    }

    /// The local transform of the mesh, or `None` for the identity.
    pub fn transform(&self) -> (transform: Option<Mat4>)
        ensures
            transform == self@.transform,
    {
        self.transform
    }

    /// The joints of the skin in declaration order, or `None` for a mesh
    /// without a skin.
    pub fn skin(&self) -> (skin: Option<&[Joint]>)
        ensures
            match skin {
                Some(joints) => self@.skin == Some(joint_views(joints@)),
                None => self@.skin is None,
            },
    {
        match &self.skin {
            Some(joints) => Some(joints.as_slice()),
            None => None,
        }
    }

    /// The bytes that one vertex record of the mesh takes.
    pub fn stride(&self) -> (bytes: usize)
        ensures
            bytes == self@.stride(),
    {
        stride_of(self.skin.is_some())
    }
}

/// The vertices of the first `n` meshes.
pub open spec fn vertices_before(meshes: Seq<MeshView>, n: int) -> nat
    decreases n,
{
    if n <= 0 {
        0
    } else {
        vertices_before(meshes, n - 1) + meshes[n - 1].vertex_count as nat
    }
}

/// The bytes that the vertex records of the first `n` meshes take.
pub open spec fn vertex_bytes_before(meshes: Seq<MeshView>, n: int) -> nat
    decreases n,
{
    if n <= 0 {
        0
    } else {
        vertex_bytes_before(meshes, n - 1) + meshes[n - 1].vertex_count as nat * meshes[n
            - 1].stride()
    }
}

/// A baked model.
#[derive(Debug, PartialEq, Eq)]
pub struct Model {
    meshes: Vec<Mesh>,
    index_type: IndexType,
    index_buffer: Vec<u8>,
    vertex_buffer: Vec<u8>,
    write_mask: Vec<u8>,
}

/// What a [`Model`] stands for.
pub struct ModelView {
    pub meshes: Seq<MeshView>,
    pub index_type: IndexType,
    /// The index stream, each index in the width of `index_type`.
    pub index_buffer: Seq<u8>,
    /// The vertex records, mesh after mesh, each in the stride of its mesh.
    pub vertex_buffer: Seq<u8>,
    /// One bit per index, in 32-bit words.
    pub write_mask: Seq<u8>,
}

/// What a run of meshes stands for.
pub open spec fn mesh_views(meshes: Seq<Mesh>) -> Seq<MeshView> {
    Seq::new(meshes.len(), |m: int| meshes[m]@)
}

impl ModelView {
    /// The number of indices in the index buffer.
    pub open spec fn index_count(self) -> nat {
        self.index_buffer.len() / self.index_type.width()
    }

    /// The number of vertices in the vertex buffer.
    pub open spec fn vertex_count(self) -> nat {
        vertices_before(self.meshes, self.meshes.len() as int)
    }

    /// The index that the index buffer holds at position `k`.
    pub open spec fn index(self, k: int) -> u32 {
        index_at(self.index_type, self.index_buffer, k)
    }

    /// Position `k` of the index buffer belongs to mesh `m`.
    pub open spec fn in_mesh(self, m: int, k: int) -> bool {
        &&& 0 <= m < self.meshes.len()
        &&& self.meshes[m].index_start <= k < self.meshes[m].index_end
    }

    /// The meshes share out the index buffer: each takes a run of whole
    /// triangles that starts where the one before it ends.
    pub open spec fn indices_shared_out(self) -> bool {
        &&& self.index_buffer.len() == self.index_type.width() * self.index_count()
        &&& forall|m: int|
            0 <= m < self.meshes.len() ==> {
                &&& (#[trigger] self.meshes[m]).index_start <= self.meshes[m].index_end
                &&& (self.meshes[m].index_end - self.meshes[m].index_start) % 3 == 0
                &&& self.meshes[m].index_start == if m == 0 {
                    0
                } else {
                    self.meshes[m - 1].index_end
                }
            }
        &&& self.index_count() == if self.meshes.len() == 0 {
            0
        } else {
            self.meshes.last().index_end
        }
    }

    /// The meshes share out the vertex buffer: the records of each start
    /// where those of the one before it end.
    pub open spec fn vertices_shared_out(self) -> bool {
        &&& self.vertex_count() <= u32::MAX
        &&& self.vertex_buffer.len() == vertex_bytes_before(self.meshes, self.meshes.len() as int)
        &&& forall|m: int|
            0 <= m < self.meshes.len() ==> (#[trigger] self.meshes[m]).vertex_offset
                == vertices_before(self.meshes, m)
    }

    /// Every index of a mesh refers to a vertex of that mesh.
    pub open spec fn indices_in_range(self) -> bool {
        forall|m: int, k: int| #[trigger]
            self.in_mesh(m, k) ==> self.index(k) < self.meshes[m].vertex_count
    }

    /// What holds of every model.
    pub open spec fn wf(self) -> bool {
        &&& self.meshes.len() <= 65535
        &&& self.indices_shared_out()
        &&& self.vertices_shared_out()
        &&& self.indices_in_range()
        &&& self.write_mask.len() == 4 * mask_word_count(self.index_count())
    }
}

/// The vertex count never decreases from one mesh to the next.
pub proof fn lemma_vertices_before_grow(meshes: Seq<MeshView>, i: int, n: int)
    requires
        i <= n,
    ensures
        vertices_before(meshes, i) <= vertices_before(meshes, n),
    decreases n - i,
{
    if i < n {
        lemma_vertices_before_grow(meshes, i, n - 1);
    }
}

/// Every position of the index buffer that lies before the end of mesh
/// `n - 1` belongs to one of the first `n` meshes.
pub proof fn lemma_mesh_of_index(model: ModelView, n: int, k: int) -> (m: int)
    requires
        model.indices_shared_out(),
        1 <= n <= model.meshes.len(),
        0 <= k < model.meshes[n - 1].index_end,
    ensures
        0 <= m < n,
        model.in_mesh(m, k),
    decreases n,
{
    if k >= model.meshes[n - 1].index_start {
        n - 1
    } else {
        lemma_mesh_of_index(model, n - 1, k)
    }
}

/// The index ranges of the meshes follow each other, so none ends after a
/// later one.
pub proof fn lemma_index_ends_grow(model: ModelView, m: int, n: int)
    requires
        model.indices_shared_out(),
        0 <= m <= n < model.meshes.len(),
    ensures
        model.meshes[m].index_end <= model.meshes[n].index_end,
    decreases n - m,
{
    if m < n {
        lemma_index_ends_grow(model, m, n - 1);
        assert(model.meshes[n].index_start == model.meshes[n - 1].index_end);
    }
}

/// Every mesh of a model lies within the buffers of the model: its indices
/// are whole triangles within the index stream, and its vertices are among
/// the vertices of the model.
pub proof fn lemma_mesh_within_model(model: ModelView, m: int)
    requires
        model.wf(),
        0 <= m < model.meshes.len(),
    ensures
        model.meshes[m].index_start <= model.meshes[m].index_end <= model.index_count(),
        (model.meshes[m].index_end - model.meshes[m].index_start) % 3 == 0,
        model.meshes[m].vertex_offset + model.meshes[m].vertex_count <= model.vertex_count(),
{
    let len = model.meshes.len() as int;
    lemma_index_ends_grow(model, m, len - 1);
    lemma_vertices_before_grow(model.meshes, m + 1, len);
}

/// No index of a model refers past its vertices: every index in the index
/// buffer, read in the width of the model, is less than the number of
/// vertices of the mesh it belongs to, and so less than the number of
/// vertices of the model.
pub proof fn lemma_no_index_out_of_range(model: ModelView, k: int)
    requires
        model.wf(),
        0 <= k < model.index_count(),
    ensures
        model.index(k) < model.vertex_count(),
{
    let len = model.meshes.len() as int;
    let m = lemma_mesh_of_index(model, len, k);
    lemma_vertices_before_grow(model.meshes, m + 1, len);
}

impl View for Model {
    type V = ModelView;

    closed spec fn view(&self) -> ModelView {
        ModelView {
            meshes: mesh_views(self.meshes@),
            index_type: self.index_type,
            index_buffer: self.index_buffer@,
            vertex_buffer: self.vertex_buffer@,
            write_mask: self.write_mask@,
        }
    }
}

impl Model {
    #[verifier::type_invariant]
    closed spec fn inv(&self) -> bool {
        self@.wf()
    }

    /// Puts a model together from parts that fit each other.
    pub(crate) fn new(
        meshes: Vec<Mesh>,
        index_type: IndexType,
        index_buffer: Vec<u8>,
        vertex_buffer: Vec<u8>,
        write_mask: Vec<u8>,
    ) -> (model: Model)
        requires
            (ModelView {
                meshes: mesh_views(meshes@),
                index_type,
                index_buffer: index_buffer@,
                vertex_buffer: vertex_buffer@,
                write_mask: write_mask@,
            }).wf(),
        ensures
            model@ == (ModelView {
                meshes: mesh_views(meshes@),
                index_type,
                index_buffer: index_buffer@,
                vertex_buffer: vertex_buffer@,
                write_mask: write_mask@,
            }),
    {
        Model { meshes, index_type, index_buffer, vertex_buffer, write_mask }
    }

    /// The meshes of the model, in the order in which they were baked.
    pub fn meshes(&self) -> (meshes: &[Mesh])
        ensures
            mesh_views(meshes@) == self@.meshes,
            self@.wf(),
    {
        proof {
            use_type_invariant(self);
        }
        self.meshes.as_slice()
    }

    /// The width of the indices of the model.
    pub fn index_type(&self) -> (ty: IndexType)
        ensures
            ty == self@.index_type,
    {
        self.index_type
    }

    /// The index buffer.
    pub fn index_buffer(&self) -> (bytes: &[u8])
        ensures
            bytes@ == self@.index_buffer,
            self@.wf(),
    {
        proof {
            use_type_invariant(self);
        }
        self.index_buffer.as_slice()
    }

    /// The vertex buffer.
    pub fn vertex_buffer(&self) -> (bytes: &[u8])
        ensures
            bytes@ == self@.vertex_buffer,
            self@.wf(),
    {
        proof {
            use_type_invariant(self);
        }
        self.vertex_buffer.as_slice()
    }

    /// The write mask.
    pub fn write_mask(&self) -> (bytes: &[u8])
        ensures
            bytes@ == self@.write_mask,
            self@.wf(),
    {
        proof {
            use_type_invariant(self);
        }
        self.write_mask.as_slice()
    }
}

} // verus!
