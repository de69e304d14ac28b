//! Choosing the nodes of a scene that go into a model, and the names their
//! meshes take there.

use crate::scene::{Mat4, Node, SourceMesh, SourceSkin};
use vstd::prelude::*;

verus! {

/// One entry of a mesh name filter: the name of a mesh in the scene, and the
/// name that it takes in the model, if any.
#[derive(Clone, Debug, PartialEq, Eq)]
pub struct MeshName {
    pub src: String,
    pub dst: Option<String>,
}

/// A node chosen for baking: its mesh, its skin and transform, and the name
/// of the mesh in the model.
#[derive(Debug)]
pub struct Pick<'a> {
    pub mesh: &'a SourceMesh,
    pub skin: Option<&'a SourceSkin>,
    pub transform: Option<Mat4>,
    pub name: Option<String>,
}

/// The first entry of `filter` whose source name is `name`.
pub open spec fn lookup(filter: Seq<MeshName>, name: Seq<char>) -> Option<MeshName>
    decreases filter.len(),
{
    if filter.len() == 0 {
        None
    } else if filter[0].src@ == name {
        Some(filter[0])
    } else {
        lookup(filter.drop_first(), name)
    }
}

/// A mesh of this name passes the filter: every mesh passes an empty filter,
/// and a filter with entries lets through the meshes whose name it lists.
pub open spec fn name_passes(name: Option<String>, filter: Seq<MeshName>) -> bool {
    filter.len() == 0 || match name {
        Some(name) => lookup(filter, name@) is Some,
        None => false,
    }
}

/// A node is chosen when it has a mesh and the name of the mesh passes the
/// filter.
pub open spec fn is_selected(node: Node, filter: Seq<MeshName>) -> bool {
    match node.mesh {
        None => false,
        Some(mesh) => name_passes(mesh.name, filter),
    }
}

/// The name that a mesh takes in the model: the destination name of the first
/// filter entry for its own name, and none without such an entry.
pub open spec fn renamed(name: Option<String>, filter: Seq<MeshName>) -> Option<String> {
    match name {
        None => None,
        Some(name) => match lookup(filter, name@) {
            Some(entry) => entry.dst,
            None => None,
        },
    }
}

/// What is picked of a chosen node.
pub open spec fn pick_of<'a>(node: &'a Node, filter: Seq<MeshName>) -> Pick<'a> {
    Pick {
        mesh: &node.mesh->0,
        skin: match node.skin {
            Some(skin) => Some(&skin),
            None => None,
        },
        transform: node.transform,
        name: renamed(node.mesh->0.name, filter),
    }
}

/// The picks of the chosen nodes among the first `n` of `nodes`, in scene
/// order.
pub open spec fn picks<'a>(nodes: Seq<Node>, filter: Seq<MeshName>, n: int) -> Seq<Pick<'a>>
    decreases n,
{
    if n <= 0 {
        Seq::empty()
    } else {
        let before = picks(nodes, filter, n - 1);
        if is_selected(nodes[n - 1], filter) {
            before.push(pick_of(&nodes[n - 1], filter))
        } else {
            before
        }
    }
}

/// Finds the first entry of `filter` whose source name is `name`.
pub fn find_entry<'a>(filter: &'a [MeshName], name: &String) -> (found: Option<&'a MeshName>)
    ensures
        match found {
            Some(entry) => lookup(filter@, name@) == Some(*entry),
            None => lookup(filter@, name@) is None,
        },
{
    let mut k: usize = 0;
    assert(filter@.skip(0) =~= filter@);
    while k < filter.len()
        invariant
            k <= filter.len(),
            lookup(filter@, name@) == lookup(filter@.skip(k as int), name@),
        decreases filter.len() - k,
    {
        if filter[k].src == *name {
            return Some(&filter[k]);
        }
        assert(filter@.skip(k as int).drop_first() =~= filter@.skip(k + 1));
        k += 1;
    }
    None
}

/// Tells whether a mesh of this name passes the filter, so that a reader of
/// scenes can leave the geometry of the others unread.
pub fn passes_filter(name: &Option<String>, filter: &[MeshName]) -> (passes: bool)
    ensures
        passes == name_passes(*name, filter@),
{
    if filter.len() == 0 {
        return true;
    }
    match name {
        Some(name) => find_entry(filter, name).is_some(),
        None => false,
    }
}

/// Picks the nodes of a scene that go into a model: every node with a mesh
/// when the filter is empty, else every node whose mesh has a name that the
/// filter lists. Each mesh takes the destination name of the first filter
/// entry for it.
pub fn select_nodes<'a>(nodes: &'a [Node], filter: &[MeshName]) -> (chosen: Vec<Pick<'a>>)
    ensures
        chosen@ == picks(nodes@, filter@, nodes@.len() as int),
{
    let mut chosen: Vec<Pick<'a>> = Vec::new();
    let mut i: usize = 0;
    while i < nodes.len()
        invariant
            i <= nodes.len(),
            chosen@ == picks(nodes@, filter@, i as int),
        decreases nodes.len() - i,
    {
        let node = &nodes[i];
        match &node.mesh {
            None => {},
            Some(mesh) => {
                let entry: Option<&MeshName> = match &mesh.name {
                    Some(name) => find_entry(filter, name),
                    None => None,
                };
                if filter.len() == 0 || entry.is_some() {
                    let name: Option<String> = match entry {
                        Some(entry) => match &entry.dst {
                            Some(dst) => Some(dst.clone()),
                            None => None,
                        },
                        None => None,
                    };
                    let skin: Option<&'a SourceSkin> = match &node.skin {
                        Some(skin) => Some(skin),
                        None => None,
                    };
                    chosen.push(Pick { mesh, skin, transform: node.transform, name });
                }
            },
        }
        i += 1;
    }
    chosen
}

} // verus!
