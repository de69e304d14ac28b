//! The mesh flattener: the geometry of the picked meshes, laid end to end
//! into one index stream and one vertex buffer.
//!
//! The indices of a primitive count from the first vertex of that primitive.
//! In the model they count from the first vertex of the mesh, so each is
//! raised by the number of vertices that the mesh holds before the primitive.

use crate::arena::{
    lemma_plain_vertex_le_len, lemma_skinned_vertex_le_len, lemma_vertex_le_starts_with_position,
    plain_vertex_le, skinned_vertex_le, IndexArena, VertexArena,
};
use crate::bytes::u32_from_le;
use crate::check::{
    check_picks, indices_in, indices_upto, lemma_counts_in_grow, lemma_counts_upto_grow,
    lemma_first_fault_none, pick_fault, pick_faults, pick_indices, pick_vertices, picks_fault,
    primitive_fault, primitive_faults, skin_fault, too_large, vertices_in, vertices_upto,
};
use crate::error::BakeError;
use crate::index::{
    indices_le, lemma_indices_le_decode, lemma_indices_le_len, lemma_indices_le_push, IndexType,
};
use crate::model::{
    mesh_views, stride, vertex_bytes_before, vertices_before, Joint, Mesh, MeshView, Model,
    ModelView, MAX_MESHES,
};
use crate::scene::{tri_mode, Node, Primitive, TriangleMode, Vec3};
use crate::select::{picks, select_nodes, MeshName, Pick};
use crate::skin::{baked_skin, build_skin};
use crate::width::{index_type_of, lacks_positions, select_index_type};
use crate::write_mask::{create_write_mask, write_mask_bytes};
use vstd::prelude::*;
use vstd::slice::slice_subrange;

verus! {

/// The indices of a primitive as they stand in the model: each raised by
/// `base`, the number of vertices that its mesh holds before the primitive.
pub open spec fn offset_indices(raw: Seq<u32>, base: nat) -> Seq<u32> {
    Seq::new(raw.len(), |k: int| (raw[k] + base) as u32)
}

/// The index stream of the first `n` primitives of a mesh.
pub open spec fn mesh_stream(primitives: Seq<Primitive>, n: int) -> Seq<u32>
    decreases n,
{
    if n <= 0 {
        Seq::empty()
    } else if primitives[n - 1].is_triangle_list() {
        mesh_stream(primitives, n - 1) + offset_indices(
            primitives[n - 1].indices->0@,
            vertices_in(primitives, n - 1),
        )
    } else {
        mesh_stream(primitives, n - 1)
    }
}

/// The index stream of the first `n` picks.
pub open spec fn model_stream(picks: Seq<Pick>, n: int) -> Seq<u32>
    decreases n,
{
    if n <= 0 {
        Seq::empty()
    } else {
        model_stream(picks, n - 1) + mesh_stream(
            picks[n - 1].mesh.primitives@,
            picks[n - 1].mesh.primitives@.len() as int,
        )
    }
}

/// The record of vertex `v` of a primitive.
pub open spec fn vertex_le(primitive: Primitive, skinned: bool, v: int) -> Seq<u8> {
    if skinned {
        skinned_vertex_le(
            primitive.positions->0@[v],
            primitive.tex_coords->0@[v],
            primitive.joints->0@[v],
            primitive.weights->0@[v],
        )
    } else {
        plain_vertex_le(primitive.positions->0@[v], primitive.tex_coords->0@[v])
    }
}

/// The records of the first `n` vertices of a primitive.
pub open spec fn vertices_le(primitive: Primitive, skinned: bool, n: int) -> Seq<u8>
    decreases n,
{
    if n <= 0 {
        Seq::empty()
    } else {
        vertices_le(primitive, skinned, n - 1) + vertex_le(primitive, skinned, n - 1)
    }
}

/// The vertex records of the first `n` primitives of a mesh.
pub open spec fn mesh_vertices_le(primitives: Seq<Primitive>, skinned: bool, n: int) -> Seq<u8>
    decreases n,
{
    if n <= 0 {
        Seq::empty()
    } else if primitives[n - 1].is_triangle_list() {
        mesh_vertices_le(primitives, skinned, n - 1) + vertices_le(
            primitives[n - 1],
            skinned,
            primitives[n - 1].vertex_count() as int,
        )
    } else {
        mesh_vertices_le(primitives, skinned, n - 1)
    }
}

/// The vertex records of the first `n` picks.
pub open spec fn model_vertices_le(picks: Seq<Pick>, n: int) -> Seq<u8>
    decreases n,
{
    if n <= 0 {
        Seq::empty()
    } else {
        model_vertices_le(picks, n - 1) + mesh_vertices_le(
            picks[n - 1].mesh.primitives@,
            picks[n - 1].skin is Some,
            picks[n - 1].mesh.primitives@.len() as int,
        )
    }
}

/// The points of a mesh: the positions of the triangle lists among its first
/// `n` primitives, in order. These are the points whose records go into the
/// vertex buffer, and the ones that the bounding sphere of the mesh is for.
pub open spec fn point_cloud(primitives: Seq<Primitive>, n: int) -> Seq<Vec3>
    decreases n,
{
    if n <= 0 {
        Seq::empty()
    } else if primitives[n - 1].is_triangle_list() {
        point_cloud(primitives, n - 1) + match primitives[n - 1].positions {
            Some(positions) => positions@,
            None => Seq::empty(),
        }
    } else {
        point_cloud(primitives, n - 1)
    }
}

/// The point cloud of a mesh has one point for each vertex that the mesh
/// brings to a model.
pub proof fn lemma_point_cloud_len(primitives: Seq<Primitive>, n: int)
    ensures
        point_cloud(primitives, n).len() == vertices_in(primitives, n),
    decreases n,
{
    if n > 0 {
        lemma_point_cloud_len(primitives, n - 1);
    }
}

/// Point `v` of the point cloud of a sound mesh is the position in record `v`
/// of the mesh: the record starts with the three words of that point.
pub proof fn lemma_point_cloud_is_emitted(pick: Pick, n: int, v: int)
    requires
        pick_fault(pick) is None,
        0 <= n <= pick.mesh.primitives@.len(),
        0 <= v < point_cloud(pick.mesh.primitives@, n).len(),
    ensures
        ({
            let skinned = pick.skin is Some;
            let records = mesh_vertices_le(pick.mesh.primitives@, skinned, n);
            let point = point_cloud(pick.mesh.primitives@, n)[v];
            let at = stride(skinned) * v;
            &&& at + 12 <= records.len()
            &&& u32_from_le(records, at) == point[0]
            &&& u32_from_le(records, at + 4) == point[1]
            &&& u32_from_le(records, at + 8) == point[2]
        }),
    decreases n,
{
    let primitives = pick.mesh.primitives@;
    let skinned = pick.skin is Some;
    let before_points = point_cloud(primitives, n - 1);
    let before_records = mesh_vertices_le(primitives, skinned, n - 1);
    lemma_sound_primitives(pick, n - 1);
    lemma_point_cloud_len(primitives, n - 1);
    lemma_mesh_vertices_le_len(pick, n - 1);
    lemma_mesh_vertices_le_len(pick, n);
    let last = primitives[n - 1];
    let own = vertices_le(last, skinned, last.vertex_count() as int);
    assert(mesh_vertices_le(primitives, skinned, n) == before_records + own);
    if v < before_points.len() {
        lemma_point_cloud_is_emitted(pick, n - 1, v);
        assert(stride(skinned) * v + 12 <= before_records.len()) by (nonlinear_arith)
            requires
                0 <= v < before_points.len(),
                before_records.len() == stride(skinned) * before_points.len(),
                stride(skinned) >= 20,
        ;
    } else {
        let w = v - before_points.len();
        lemma_record_holds_position(last, skinned, last.vertex_count() as int, w);
        assert(stride(skinned) * v == before_records.len() + stride(skinned) * w)
            by (nonlinear_arith)
            requires
                w == v - before_points.len(),
                before_records.len() == stride(skinned) * before_points.len(),
        ;
    }
}

/// Record `v` of a primitive starts with the three words of position `v`.
pub proof fn lemma_record_holds_position(primitive: Primitive, skinned: bool, n: int, v: int)
    requires
        0 <= v < n,
    ensures
        ({
            let records = vertices_le(primitive, skinned, n);
            let point = primitive.positions->0@[v];
            let at = stride(skinned) * v;
            &&& records.len() == stride(skinned) * n
            &&& at + 12 <= records.len()
            &&& u32_from_le(records, at) == point[0]
            &&& u32_from_le(records, at + 4) == point[1]
            &&& u32_from_le(records, at + 8) == point[2]
        }),
    decreases n,
{
    lemma_vertices_le_len(primitive, skinned, n);
    lemma_vertices_le_len(primitive, skinned, n - 1);
    let before = vertices_le(primitive, skinned, n - 1);
    let record = vertex_le(primitive, skinned, n - 1);
    assert(stride(skinned) * v + stride(skinned) <= stride(skinned) * n) by (nonlinear_arith)
        requires
            0 <= v < n,
            stride(skinned) >= 20,
    ;
    if v < n - 1 {
        lemma_record_holds_position(primitive, skinned, n - 1, v);
    } else {
        lemma_vertex_le_starts_with_position(
            primitive.positions->0@[v],
            primitive.tex_coords->0@[v],
            primitive.joints->0@[v],
            primitive.weights->0@[v],
            before,
        );
    }
}

/// The view of a name that may be absent.
pub open spec fn name_view(name: Option<String>) -> Option<Seq<char>> {
    match name {
        Some(name) => Some(name@),
        None => None,
    }
}

/// The mesh that pick `m` becomes once the picks before it are in the model.
pub open spec fn baked_mesh(picks: Seq<Pick>, m: int) -> MeshView {
    let pick = picks[m];
    MeshView {
        name: name_view(pick.name),
        index_start: indices_upto(picks, m) as u32,
        index_end: indices_upto(picks, m + 1) as u32,
        vertex_count: pick_vertices(pick) as u32,
        vertex_offset: vertices_upto(picks, m) as u32,
        bounds: pick.mesh.bounds,
        transform: pick.transform,
        skin: match pick.skin {
            Some(skin) => Some(baked_skin(*skin)),
            None => None,
        },
    }
}

/// The meshes that the picks become.
pub open spec fn baked_meshes(picks: Seq<Pick>) -> Seq<MeshView> {
    Seq::new(picks.len(), |m: int| baked_mesh(picks, m))
}

/// The model that sound picks become in the index width `index_type`.
pub open spec fn baked_model(picks: Seq<Pick>, index_type: IndexType) -> ModelView {
    let stream = model_stream(picks, picks.len() as int);
    ModelView {
        meshes: baked_meshes(picks),
        index_type,
        index_buffer: indices_le(index_type, stream),
        vertex_buffer: model_vertices_le(picks, picks.len() as int),
        write_mask: write_mask_bytes(stream),
    }
}

/// Every primitive of a sound pick is sound.
pub proof fn lemma_sound_primitives(pick: Pick, p: int)
    requires
        pick_fault(pick) is None,
        0 <= p < pick.mesh.primitives@.len(),
    ensures
        primitive_fault(pick.mesh.primitives@[p], pick.skin is Some) is None,
        match pick.skin {
            Some(skin) => skin_fault(*skin) is None,
            None => true,
        },
{
    let primitives = pick.mesh.primitives@;
    let faults = primitive_faults(primitives, pick.skin is Some);
    lemma_first_fault_none(faults, primitives.len() as int);
    assert(faults[p] is None);
}

/// The index stream of a sound mesh has one entry per index of its triangle
/// lists, a number of entries that makes whole triangles.
pub proof fn lemma_mesh_stream_len(pick: Pick, n: int)
    requires
        pick_fault(pick) is None,
        0 <= n <= pick.mesh.primitives@.len(),
    ensures
        mesh_stream(pick.mesh.primitives@, n).len() == indices_in(pick.mesh.primitives@, n),
        indices_in(pick.mesh.primitives@, n) % 3 == 0,
    decreases n,
{
    if n > 0 {
        lemma_mesh_stream_len(pick, n - 1);
        lemma_sound_primitives(pick, n - 1);
    }
}

/// Every entry of the index stream of a sound mesh refers to a vertex that
/// the mesh has by then.
pub proof fn lemma_mesh_stream_in_range(pick: Pick, n: int, k: int)
    requires
        pick_fault(pick) is None,
        0 <= n <= pick.mesh.primitives@.len(),
        vertices_in(pick.mesh.primitives@, n) <= u32::MAX,
        0 <= k < mesh_stream(pick.mesh.primitives@, n).len(),
    ensures
        mesh_stream(pick.mesh.primitives@, n)[k] < vertices_in(pick.mesh.primitives@, n),
    decreases n,
{
    let primitives = pick.mesh.primitives@;
    if n > 0 {
        let before = mesh_stream(primitives, n - 1);
        lemma_counts_in_grow(primitives, n - 1, n);
        lemma_sound_primitives(pick, n - 1);
        if k < before.len() {
            lemma_mesh_stream_in_range(pick, n - 1, k);
        } else {
            let raw = primitives[n - 1].indices->0@;
            assert(raw[k - before.len()] < primitives[n - 1].vertex_count());
        }
    }
}

/// The vertex records of a sound mesh take one stride per vertex.
pub proof fn lemma_mesh_vertices_le_len(pick: Pick, n: int)
    requires
        pick_fault(pick) is None,
        0 <= n <= pick.mesh.primitives@.len(),
    ensures
        mesh_vertices_le(pick.mesh.primitives@, pick.skin is Some, n).len() == stride(
            pick.skin is Some,
        ) * vertices_in(pick.mesh.primitives@, n),
    decreases n,
{
    if n > 0 {
        lemma_mesh_vertices_le_len(pick, n - 1);
        lemma_sound_primitives(pick, n - 1);
        let primitive = pick.mesh.primitives@[n - 1];
        if primitive.is_triangle_list() {
            lemma_vertices_le_len(primitive, pick.skin is Some, primitive.vertex_count() as int);
        }
    }
}

/// The records of the first `n` vertices of a primitive take one stride each.
pub proof fn lemma_vertices_le_len(primitive: Primitive, skinned: bool, n: int)
    requires
        0 <= n,
    ensures
        vertices_le(primitive, skinned, n).len() == stride(skinned) * n,
    decreases n,
{
    if n > 0 {
        lemma_vertices_le_len(primitive, skinned, n - 1);
        lemma_plain_vertex_le_len(
            primitive.positions->0@[n - 1],
            primitive.tex_coords->0@[n - 1],
        );
        lemma_skinned_vertex_le_len(
            primitive.positions->0@[n - 1],
            primitive.tex_coords->0@[n - 1],
            primitive.joints->0@[n - 1],
            primitive.weights->0@[n - 1],
        );
        if skinned {
            assert(vertices_le(primitive, skinned, n).len() == 52 * (n - 1) + 52);
        } else {
            assert(vertices_le(primitive, skinned, n).len() == 20 * (n - 1) + 20);
        }
    }
}

/// Every pick is sound.
pub open spec fn all_sound(picks: Seq<Pick>) -> bool {
    forall|m: int| 0 <= m < picks.len() ==> pick_fault(#[trigger] picks[m]) is None
}

/// Picks without a fault are sound one by one and fit in 32-bit counts.
pub proof fn lemma_picks_sound(picks: Seq<Pick>)
    requires
        picks_fault(picks) is None,
    ensures
        all_sound(picks),
        !too_large(picks),
{
    let faults = pick_faults(picks);
    lemma_first_fault_none(faults, picks.len() as int);
    assert forall|m: int| 0 <= m < picks.len() implies pick_fault(#[trigger] picks[m]) is None by {
        assert(faults[m] is None);
    }
}

/// The index stream of sound picks has one entry per index.
pub proof fn lemma_model_stream_len(picks: Seq<Pick>, n: int)
    requires
        all_sound(picks),
        0 <= n <= picks.len(),
    ensures
        model_stream(picks, n).len() == indices_upto(picks, n),
    decreases n,
{
    if n > 0 {
        lemma_model_stream_len(picks, n - 1);
        lemma_mesh_stream_len(picks[n - 1], picks[n - 1].mesh.primitives@.len() as int);
    }
}

/// The part of the index stream that belongs to pick `m` is the index stream
/// of its mesh.
pub proof fn lemma_model_stream_at(picks: Seq<Pick>, n: int, m: int, k: int)
    requires
        all_sound(picks),
        0 <= m < n <= picks.len(),
        indices_upto(picks, m) <= k < indices_upto(picks, m + 1),
    ensures
        k < model_stream(picks, n).len(),
        k - indices_upto(picks, m) < mesh_stream(
            picks[m].mesh.primitives@,
            picks[m].mesh.primitives@.len() as int,
        ).len(),
        model_stream(picks, n)[k] == mesh_stream(
            picks[m].mesh.primitives@,
            picks[m].mesh.primitives@.len() as int,
        )[k - indices_upto(picks, m)],
    decreases n,
{
    lemma_model_stream_len(picks, n - 1);
    lemma_model_stream_len(picks, n);
    lemma_mesh_stream_len(picks[m], picks[m].mesh.primitives@.len() as int);
    if m < n - 1 {
        lemma_model_stream_at(picks, n - 1, m, k);
    }
}

/// The meshes that picks become count the vertices that the picks hold.
pub proof fn lemma_baked_vertices(picks: Seq<Pick>, n: int)
    requires
        all_sound(picks),
        !too_large(picks),
        0 <= n <= picks.len(),
    ensures
        vertices_before(baked_meshes(picks), n) == vertices_upto(picks, n),
        vertex_bytes_before(baked_meshes(picks), n) == model_vertices_le(picks, n).len(),
    decreases n,
{
    if n > 0 {
        lemma_baked_vertices(picks, n - 1);
        lemma_counts_upto_grow(picks, n, picks.len() as int);
        let pick = picks[n - 1];
        lemma_mesh_vertices_le_len(pick, pick.mesh.primitives@.len() as int);
        assert(baked_meshes(picks)[n - 1].vertex_count == pick_vertices(pick));
        assert(baked_meshes(picks)[n - 1].stride() == stride(pick.skin is Some));
        assert(pick_vertices(pick) * stride(pick.skin is Some) == stride(pick.skin is Some)
            * pick_vertices(pick)) by (nonlinear_arith);
    }
}

/// The model that sound picks become keeps every promise of a model: its
/// meshes share out the buffers, every index refers to a vertex of its mesh,
/// and the write mask has one bit per index.
pub proof fn lemma_baked_model_wf(picks: Seq<Pick>, index_type: IndexType)
    requires
        picks.len() <= 65535,
        picks_fault(picks) is None,
    ensures
        baked_model(picks, index_type).wf(),
{
    let model = baked_model(picks, index_type);
    let len = picks.len() as int;
    let stream = model_stream(picks, len);
    lemma_picks_sound(picks);
    lemma_model_stream_len(picks, len);
    lemma_indices_le_len(index_type, stream);
    lemma_baked_vertices(picks, len);
    assert(model.index_count() == indices_upto(picks, len));
    assert forall|m: int| 0 <= m < model.meshes.len() implies {
        &&& (#[trigger] model.meshes[m]).index_start == indices_upto(picks, m)
        &&& model.meshes[m].index_end == indices_upto(picks, m + 1)
        &&& model.meshes[m].vertex_count == pick_vertices(picks[m])
        &&& model.meshes[m].vertex_offset == vertices_before(model.meshes, m)
        &&& (model.meshes[m].index_end - model.meshes[m].index_start) % 3 == 0
    } by {
        lemma_counts_upto_grow(picks, m, len);
        lemma_counts_upto_grow(picks, m + 1, len);
        lemma_mesh_stream_len(picks[m], picks[m].mesh.primitives@.len() as int);
        lemma_baked_vertices(picks, m);
    }
    assert(model.indices_shared_out()) by {
        assert forall|m: int| 0 <= m < model.meshes.len() implies {
            &&& (#[trigger] model.meshes[m]).index_start <= model.meshes[m].index_end
            &&& (model.meshes[m].index_end - model.meshes[m].index_start) % 3 == 0
            &&& model.meshes[m].index_start == if m == 0 {
                0
            } else {
                model.meshes[m - 1].index_end
            }
        } by {
            if m > 0 {
                assert(model.meshes[m - 1].index_end == indices_upto(picks, m));
            }
        }
    }
    assert(model.indices_in_range()) by {
        assert forall|m: int, k: int| #[trigger] model.in_mesh(m, k) implies model.index(k)
            < model.meshes[m].vertex_count by {
            let pick = picks[m];
            let primitives = pick.mesh.primitives@;
            assert(model.meshes[m].index_start == indices_upto(picks, m));
            lemma_counts_upto_grow(picks, m + 1, len);
            lemma_model_stream_at(picks, len, m, k);
            lemma_mesh_stream_in_range(
                pick,
                primitives.len() as int,
                k - indices_upto(picks, m),
            );
            lemma_indices_le_decode(index_type, stream, k);
        }
    }
}

/// The pick to which entry `k` of the index stream belongs.
pub proof fn lemma_pick_of_entry(picks: Seq<Pick>, n: int, k: int) -> (m: int)
    requires
        n <= picks.len(),
        0 <= k < indices_upto(picks, n),
    ensures
        0 <= m < n,
        indices_upto(picks, m) <= k < indices_upto(picks, m + 1),
    decreases n,
{
    if k >= indices_upto(picks, n - 1) {
        n - 1
    } else {
        lemma_pick_of_entry(picks, n - 1, k)
    }
}

/// Where the indices are 32 bits wide, or no mesh has more than 65 536
/// vertices, narrowing loses nothing: the index buffer holds the index stream
/// itself. The write mask, which is made from the stream, then marks the
/// first occurrence of every value that a consumer reads from the buffer.
pub proof fn lemma_buffer_holds_stream(picks: Seq<Pick>, index_type: IndexType, k: int)
    requires
        picks.len() <= 65535,
        picks_fault(picks) is None,
        index_type == IndexType::U32 || forall|m: int|
            0 <= m < picks.len() ==> pick_vertices(#[trigger] picks[m]) <= 65536,
        0 <= k < model_stream(picks, picks.len() as int).len(),
    ensures
        baked_model(picks, index_type).index(k) == model_stream(picks, picks.len() as int)[k],
{
    let len = picks.len() as int;
    let stream = model_stream(picks, len);
    lemma_picks_sound(picks);
    lemma_model_stream_len(picks, len);
    lemma_indices_le_decode(index_type, stream, k);
    if index_type == IndexType::U16 {
        let m = lemma_pick_of_entry(picks, len, k);
        let primitives = picks[m].mesh.primitives@;
        lemma_model_stream_at(picks, len, m, k);
        lemma_mesh_stream_in_range(picks[m], primitives.len() as int, k - indices_upto(picks, m));
    }
}

/// Appends the indices and the vertex records of one sound triangle list.
#[verifier::loop_isolation(false)]
fn emit_primitive(
    primitive: &Primitive,
    skinned: bool,
    base: u32,
    stream: &mut Vec<u32>,
    indices: &mut IndexArena,
    vertices: &mut VertexArena,
)
    requires
        primitive.is_triangle_list(),
        primitive_fault(*primitive, skinned) is None,
        base + primitive.vertex_count() <= u32::MAX,
        old(indices)@.bytes == indices_le(old(indices)@.index_type, old(stream)@),
    ensures
        final(indices)@.index_type == old(indices)@.index_type,
        final(stream)@ == old(stream)@ + offset_indices(primitive.indices->0@, base as nat),
        final(indices)@.bytes == indices_le(final(indices)@.index_type, final(stream)@),
        final(vertices)@ == old(vertices)@ + vertices_le(
            *primitive,
            skinned,
            primitive.vertex_count() as int,
        ),
{
    let raw = primitive.indices.as_ref().unwrap();
    let positions = primitive.positions.as_ref().unwrap();
    let tex_coords = primitive.tex_coords.as_ref().unwrap();
    let ghost shifted = offset_indices(raw@, base as nat);
    let mut k: usize = 0;
    while k < raw.len()
        invariant
            k <= raw.len(),
            indices@.index_type == old(indices)@.index_type,
            stream@ == old(stream)@ + shifted.take(k as int),
            indices@.bytes == indices_le(indices@.index_type, stream@),
        decreases raw.len() - k,
    {
        let index: u32 = raw[k] + base;
        proof {
            lemma_indices_le_push(indices@.index_type, stream@, index);
            assert(shifted.take(k + 1) =~= shifted.take(k as int).push(index));
        }
        stream.push(index);
        indices.push(index);
        assert(stream@ =~= old(stream)@ + shifted.take(k + 1));
        k += 1;
    }
    assert(shifted.take(raw@.len() as int) =~= shifted);
    let mut v: usize = 0;
    while v < positions.len()
        invariant
            v <= positions.len(),
            vertices@ == old(vertices)@ + vertices_le(*primitive, skinned, v as int),
        decreases positions.len() - v,
    {
        if skinned {
            let joints = primitive.joints.as_ref().unwrap();
            let weights = primitive.weights.as_ref().unwrap();
            vertices.push_skinned(&positions[v], &tex_coords[v], &joints[v], &weights[v]);
        } else {
            vertices.push(&positions[v], &tex_coords[v]);
        }
        assert(vertices@ =~= old(vertices)@ + vertices_le(*primitive, skinned, v + 1));
        v += 1;
    }
}

/// Appends the geometry of one sound pick and gives the mesh that describes
/// it.
fn emit_mesh(
    pick: &Pick,
    vertex_offset: u32,
    stream: &mut Vec<u32>,
    indices: &mut IndexArena,
    vertices: &mut VertexArena,
) -> (mesh: Mesh)
    requires
        pick_fault(*pick) is None,
        old(stream)@.len() + pick_indices(*pick) <= u32::MAX,
        vertex_offset + pick_vertices(*pick) <= u32::MAX,
        old(indices)@.bytes == indices_le(old(indices)@.index_type, old(stream)@),
    ensures
        final(indices)@.index_type == old(indices)@.index_type,
        final(stream)@ == old(stream)@ + mesh_stream(
            pick.mesh.primitives@,
            pick.mesh.primitives@.len() as int,
        ),
        final(indices)@.bytes == indices_le(final(indices)@.index_type, final(stream)@),
        final(vertices)@ == old(vertices)@ + mesh_vertices_le(
            pick.mesh.primitives@,
            pick.skin is Some,
            pick.mesh.primitives@.len() as int,
        ),
        mesh@ == (MeshView {
            name: name_view(pick.name),
            index_start: old(stream)@.len() as u32,
            index_end: (old(stream)@.len() + pick_indices(*pick)) as u32,
            vertex_count: pick_vertices(*pick) as u32,
            vertex_offset,
            bounds: pick.mesh.bounds,
            transform: pick.transform,
            skin: match pick.skin {
                Some(skin) => Some(baked_skin(*skin)),
                None => None,
            },
        }),
{
    let primitives = &pick.mesh.primitives;
    let skinned: bool = pick.skin.is_some();
    let index_start: u32 = stream.len() as u32;
    let mut count: u32 = 0;
    let mut p: usize = 0;
    while p < primitives.len()
        invariant
            pick_fault(*pick) is None,
            primitives@ == pick.mesh.primitives@,
            skinned == pick.skin is Some,
            pick_vertices(*pick) <= u32::MAX,
            p <= primitives.len(),
            count == vertices_in(primitives@, p as int),
            indices@.index_type == old(indices)@.index_type,
            stream@ == old(stream)@ + mesh_stream(primitives@, p as int),
            indices@.bytes == indices_le(indices@.index_type, stream@),
            vertices@ == old(vertices)@ + mesh_vertices_le(primitives@, skinned, p as int),
        decreases primitives.len() - p,
    {
        let primitive = &primitives[p];
        proof {
            lemma_sound_primitives(*pick, p as int);
            lemma_counts_in_grow(primitives@, p + 1, primitives@.len() as int);
        }
        let list: bool = match tri_mode(primitive) {
            Some(TriangleMode::List) => true,
            _ => false,
        };
        if list {
            emit_primitive(primitive, skinned, count, stream, indices, vertices);
            count = count + primitive.positions.as_ref().unwrap().len() as u32;
            assert(stream@ =~= old(stream)@ + mesh_stream(primitives@, p + 1));
            assert(vertices@ =~= old(vertices)@ + mesh_vertices_le(primitives@, skinned, p + 1));
        }
        p += 1;
    }
    proof {
        lemma_mesh_stream_len(*pick, primitives@.len() as int);
    }
    let name: Option<String> = match &pick.name {
        Some(name) => Some(name.clone()),
        None => None,
    };
    let skin: Option<Vec<Joint>> = match pick.skin {
        Some(skin) => Some(build_skin(skin)),
        None => None,
    };
    Mesh::new(
        name,
        index_start..stream.len() as u32,
        count,
        vertex_offset,
        pick.mesh.bounds,
        pick.transform,
        skin,
    )
}

/// Gathers the points of a mesh: the positions of its triangle lists, in
/// order. The bounding sphere of the mesh is computed from these.
pub fn mesh_points(primitives: &[Primitive]) -> (points: Vec<Vec3>)
    ensures
        points@ == point_cloud(primitives@, primitives@.len() as int),
{
    let mut points: Vec<Vec3> = Vec::new();
    let mut p: usize = 0;
    while p < primitives.len()
        invariant
            p <= primitives.len(),
            points@ == point_cloud(primitives@, p as int),
        decreases primitives.len() - p,
    {
        let primitive = &primitives[p];
        let list: bool = match tri_mode(primitive) {
            Some(TriangleMode::List) => true,
            _ => false,
        };
        if list {
            match &primitive.positions {
                Some(positions) => {
                    let ghost before = points@;
                    let mut v: usize = 0;
                    while v < positions.len()
                        invariant
                            v <= positions.len(),
                            points@ == before + positions@.take(v as int),
                        decreases positions.len() - v,
                    {
                        points.push(positions[v]);
                        assert(points@ =~= before + positions@.take(v + 1));
                        v += 1;
                    }
                    assert(positions@.take(positions@.len() as int) =~= positions@);
                },
                None => {
                    assert(points@ =~= points@ + Seq::<Vec3>::empty());
                },
            }
        }
        p += 1;
    }
    points
}

/// Lays out sound picks as a model in the index width `index_type`.
fn emit_model(picks: &[Pick], index_type: IndexType) -> (model: Model)
    requires
        picks@.len() <= 65535,
        picks_fault(picks@) is None,
    ensures
        model@ == baked_model(picks@, index_type),
{
    let mut stream: Vec<u32> = Vec::new();
    let mut indices = IndexArena::new(index_type);
    let mut vertices = VertexArena::new();
    let mut meshes: Vec<Mesh> = Vec::new();
    let mut vertex_offset: u32 = 0;
    proof {
        lemma_picks_sound(picks@);
        assert(indices@.bytes =~= indices_le(index_type, stream@));
    }
    let mut m: usize = 0;
    while m < picks.len()
        invariant
            all_sound(picks@),
            !too_large(picks@),
            m <= picks.len(),
            indices@.index_type == index_type,
            stream@ == model_stream(picks@, m as int),
            indices@.bytes == indices_le(index_type, stream@),
            vertices@ == model_vertices_le(picks@, m as int),
            vertex_offset == vertices_upto(picks@, m as int),
            meshes@.len() == m,
            forall|i: int| 0 <= i < m ==> (#[trigger] meshes@[i])@ == baked_mesh(picks@, i),
        decreases picks.len() - m,
    {
        proof {
            lemma_counts_upto_grow(picks@, m + 1, picks@.len() as int);
            lemma_model_stream_len(picks@, m as int);
        }
        let mesh = emit_mesh(&picks[m], vertex_offset, &mut stream, &mut indices, &mut vertices);
        vertex_offset = vertex_offset + mesh.vertex_count();
        meshes.push(mesh);
        m += 1;
    }
    let write_mask = create_write_mask(stream.as_slice());
    proof {
        lemma_baked_model_wf(picks@, index_type);
        assert(mesh_views(meshes@) =~= baked_meshes(picks@));
    }
    Model::new(meshes, index_type, indices.into_bytes(), vertices.into_bytes(), write_mask)
}

/// The picks that go into a model: the first 65 535.
pub open spec fn kept(picks: Seq<Pick>) -> Seq<Pick> {
    if picks.len() <= 65535 {
        picks
    } else {
        picks.take(65535)
    }
}

/// What stops the bake of the picks, if anything: a primitive made of
/// triangles without positions anywhere among them, or else the first fault
/// of the picks that go into the model.
pub open spec fn scene_fault(picks: Seq<Pick>) -> Option<BakeError> {
    if lacks_positions(picks) {
        Some(BakeError::MissingPositions)
    } else {
        picks_fault(kept(picks))
    }
}

/// A flattened scene.
#[derive(Debug)]
pub struct Flattened {
    pub model: Model,
    /// The number of picks that were left out because the model was full.
    /// Anything but zero deserves a warning.
    pub skipped: usize,
}

/// Flattens picked meshes into a model. The index width is decided from all
/// the picks; the first 65 535 of them go into the model and the others are
/// counted as skipped.
pub fn flatten_picks(picks: &[Pick]) -> (flattened: Result<Flattened, BakeError>)
    ensures
        match flattened {
            Ok(flat) => {
                &&& scene_fault(picks@) is None
                &&& flat.model@ == baked_model(kept(picks@), index_type_of(picks@))
                &&& flat.model@.wf()
                &&& flat.skipped == picks@.len() - kept(picks@).len()
            },
            Err(error) => scene_fault(picks@) == Some(error),
        },
{
    let index_type = match select_index_type(picks) {
        Ok(index_type) => index_type,
        Err(error) => {
            return Err(error);
        },
    };
    let (taken, skipped): (&[Pick], usize) = if picks.len() <= MAX_MESHES {
        (picks, 0)
    } else {
        (slice_subrange(picks, 0, MAX_MESHES), picks.len() - MAX_MESHES)
    };
    assert(taken@ =~= kept(picks@));
    match check_picks(taken) {
        Ok(_) => {},
        Err(error) => {
            return Err(error);
        },
    }
    proof {
        lemma_baked_model_wf(taken@, index_type);
    }
    Ok(Flattened { model: emit_model(taken, index_type), skipped })
}

/// Flattens the meshes of a scene into a model: picks the nodes that the
/// filter lets through and lays out their geometry.
pub fn flatten_scene(nodes: &[Node], filter: &[MeshName]) -> (flattened: Result<
    Flattened,
    BakeError,
>)
    ensures
        match flattened {
            Ok(flat) => {
                let chosen = picks(nodes@, filter@, nodes@.len() as int);
                &&& scene_fault(chosen) is None
                &&& flat.model@ == baked_model(kept(chosen), index_type_of(chosen))
                &&& flat.model@.wf()
                &&& flat.skipped == chosen.len() - kept(chosen).len()
            },
            Err(error) => scene_fault(picks(nodes@, filter@, nodes@.len() as int)) == Some(error),
        },
{
    let chosen = select_nodes(nodes, filter);
    flatten_picks(chosen.as_slice())
}

} // verus!
