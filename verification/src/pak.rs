//! The model packager: a store of baked models under their keys, and the bake
//! that fills it. A key is baked once; asking again gives the model back that
//! is already there.
//!
//! Looking a key up and registering a model under it happen in one call on an
//! exclusive borrow of the store. Callers that bake from several threads have
//! to guard the store with a lock of their own.

use crate::error::BakeError;
use crate::flatten::{baked_model, flatten_scene, kept, scene_fault, Flattened};
use crate::model::{Model, ModelView};
use crate::scene::Node;
use crate::select::{picks, MeshName};
use crate::width::index_type_of;
use vstd::prelude::*;

verus! {

/// The number under which a store holds a model.
#[derive(Clone, Copy, Debug, PartialEq, Eq, Hash, Structural)]
pub struct ModelId(pub usize);

/// A model in a store, under its key.
#[derive(Debug)]
pub struct PakEntry {
    key: String,
    model: Model,
}

/// What a [`PakEntry`] stands for.
pub struct PakEntryView {
    pub key: Seq<char>,
    pub model: ModelView,
}

impl View for PakEntry {
    type V = PakEntryView;

    closed spec fn view(&self) -> PakEntryView {
        PakEntryView { key: self.key@, model: self.model@ }
    }
}

/// A store of baked models.
#[derive(Debug)]
pub struct PakBuf {
    entries: Vec<PakEntry>,
}

/// The number of the first among the first `n` entries that has the key
/// `key`.
pub open spec fn find_key(entries: Seq<PakEntryView>, key: Seq<char>, n: int) -> Option<nat>
    decreases n,
{
    if n <= 0 {
        None
    } else {
        match find_key(entries, key, n - 1) {
            Some(id) => Some(id),
            None => if entries[n - 1].key == key {
                Some((n - 1) as nat)
            } else {
                None
            },
        }
    }
}

/// The number under which a store holds the model of `key`, if it holds one.
pub open spec fn id_of(entries: Seq<PakEntryView>, key: Seq<char>) -> Option<nat> {
    find_key(entries, key, entries.len() as int)
}

/// What a bake makes of a store, and what it answers, when flattening the
/// scene would end in `outcome`: a key that is in the store is answered with
/// its number and nothing changes; for a new key the model is added at the
/// end, or the error is handed on and nothing changes.
pub open spec fn bake_step(
    entries: Seq<PakEntryView>,
    key: Seq<char>,
    outcome: Result<ModelView, BakeError>,
) -> (Seq<PakEntryView>, Result<nat, BakeError>) {
    match id_of(entries, key) {
        Some(id) => (entries, Ok(id)),
        None => match outcome {
            Ok(model) => (entries.push(PakEntryView { key, model }), Ok(entries.len())),
            Err(error) => (entries, Err(error)),
        },
    }
}

/// A key found among the first entries stays found, under the same number,
/// however many entries follow.
pub proof fn lemma_find_key_stays(entries: Seq<PakEntryView>, key: Seq<char>, found: int, n: int)
    requires
        0 <= found <= n,
        find_key(entries, key, found) is Some,
    ensures
        find_key(entries, key, n) == find_key(entries, key, found),
    decreases n,
{
    if found < n {
        lemma_find_key_stays(entries, key, found, n - 1);
    }
}

/// What is found among the first entries does not depend on the entries
/// after them, and the number found is that of an entry with the key.
pub proof fn lemma_find_key_prefix(
    entries: Seq<PakEntryView>,
    longer: Seq<PakEntryView>,
    key: Seq<char>,
    n: int,
)
    requires
        0 <= n <= entries.len() <= longer.len(),
        forall|i: int| 0 <= i < entries.len() ==> longer[i] == entries[i],
    ensures
        find_key(longer, key, n) == find_key(entries, key, n),
        match find_key(entries, key, n) {
            Some(id) => id < n && entries[id as int].key == key,
            None => forall|i: int| 0 <= i < n ==> entries[i].key != key,
        },
    decreases n,
{
    if n > 0 {
        lemma_find_key_prefix(entries, longer, key, n - 1);
    }
}

/// Baking is idempotent: once a bake has answered a key with a number, every
/// later bake of that key answers with the same number and leaves the store
/// as it is, whatever the scene holds by then.
pub proof fn lemma_bake_twice(
    entries: Seq<PakEntryView>,
    key: Seq<char>,
    first: Result<ModelView, BakeError>,
    second: Result<ModelView, BakeError>,
)
    requires
        bake_step(entries, key, first).1 is Ok,
    ensures
        bake_step(bake_step(entries, key, first).0, key, second) == bake_step(
            entries,
            key,
            first,
        ),
{
    let after = bake_step(entries, key, first).0;
    if id_of(entries, key) is None {
        lemma_find_key_prefix(entries, after, key, entries.len() as int);
    }
}

/// A bake of one key leaves the models of all other keys where they are.
pub proof fn lemma_bake_keeps_others(
    entries: Seq<PakEntryView>,
    key: Seq<char>,
    outcome: Result<ModelView, BakeError>,
    other: Seq<char>,
)
    requires
        other != key,
    ensures
        id_of(bake_step(entries, key, outcome).0, other) == id_of(entries, other),
{
    let after = bake_step(entries, key, outcome).0;
    if after != entries {
        lemma_find_key_prefix(entries, after, other, entries.len() as int);
    }
}

impl View for PakBuf {
    type V = Seq<PakEntryView>;

    closed spec fn view(&self) -> Seq<PakEntryView> {
        Seq::new(self.entries@.len(), |i: int| self.entries@[i]@)
    }
}

impl PakBuf {
    /// A store without models.
    pub fn new() -> (pak: PakBuf)
        ensures
            pak@ == Seq::<PakEntryView>::empty(),
    {
        let pak = PakBuf { entries: Vec::new() };
        assert(pak@ =~= Seq::<PakEntryView>::empty());
        pak
    }

    /// The number of models in the store.
    pub fn len(&self) -> (len: usize)
        ensures
            len == self@.len(),
    {
        self.entries.len()
    }

    /// The number under which the store holds the model of `key`, if it holds
    /// one.
    pub fn id(&self, key: &String) -> (id: Option<ModelId>)
        ensures
            match id {
                Some(id) => id_of(self@, key@) == Some(id.0 as nat),
                None => id_of(self@, key@) is None,
            },
    {
        let mut i: usize = 0;
        while i < self.entries.len()
            invariant
                i <= self.entries.len(),
                find_key(self@, key@, i as int) is None,
            decreases self.entries.len() - i,
        {
            if self.entries[i].key == *key {
                proof {
                    assert(self@[i as int].key == key@);
                    lemma_find_key_stays(self@, key@, i + 1, self@.len() as int);
                }
                return Some(ModelId(i));
            }
            assert(self@[i as int].key != key@);
            i += 1;
        }
        None
    }

    /// The model that the store holds under `id`.
    pub fn model(&self, id: ModelId) -> (model: Option<&Model>)
        ensures
            match model {
                Some(model) => id.0 < self@.len() && model@ == self@[id.0 as int].model,
                None => id.0 >= self@.len(),
            },
    {
        if id.0 < self.entries.len() {
            Some(&self.entries[id.0].model)
        } else {
            None
        }
    }

    /// The key under which the store holds the model `id`.
    pub fn key(&self, id: ModelId) -> (key: Option<&String>)
        ensures
            match key {
                Some(key) => id.0 < self@.len() && key@ == self@[id.0 as int].key,
                None => id.0 >= self@.len(),
            },
    {
        if id.0 < self.entries.len() {
            Some(&self.entries[id.0].key)
        } else {
            None
        }
    }

    /// Adds a model at the end of the store and gives the number it is held
    /// under.
    pub fn push_model(&mut self, key: String, model: Model) -> (id: ModelId)
        ensures
            id.0 == old(self)@.len(),
            final(self)@ == old(self)@.push(PakEntryView { key: key@, model: model@ }),
    {
        let id = ModelId(self.entries.len());
        self.entries.push(PakEntry { key, model });
        assert(self@ =~= old(self)@.push(PakEntryView { key: key@, model: model@ }));
        id
    }
}

/// What a bake answers.
#[derive(Clone, Copy, Debug, PartialEq, Eq)]
pub struct Baked {
    /// The number of the model in the store.
    pub id: ModelId,
    /// The number of meshes that this bake left out because the model was
    /// full. Anything but zero deserves a warning.
    pub skipped: usize,
}

/// What flattening the scene ends in, as far as a store is concerned.
pub open spec fn flatten_outcome(nodes: Seq<Node>, filter: Seq<MeshName>) -> Result<
    ModelView,
    BakeError,
> {
    let chosen = picks(nodes, filter, nodes.len() as int);
    match scene_fault(chosen) {
        Some(error) => Err(error),
        None => Ok(baked_model(kept(chosen), index_type_of(chosen))),
    }
}

/// Bakes the model of `key` into the store, unless the store has it: then the
/// scene is not looked at and the number of the model that is there is
/// answered. A scene that cannot be baked leaves the store as it is.
pub fn bake_model(key: &String, nodes: &[Node], filter: &[MeshName], pak: &mut PakBuf) -> (baked:
    Result<Baked, BakeError>)
    ensures
        final(pak)@ == bake_step(old(pak)@, key@, flatten_outcome(nodes@, filter@)).0,
        match baked {
            Ok(done) => {
                &&& bake_step(old(pak)@, key@, flatten_outcome(nodes@, filter@)).1 == Ok::<
                    nat,
                    BakeError,
                >(done.id.0 as nat)
                &&& done.skipped == if id_of(old(pak)@, key@) is Some {
                    0
                } else {
                    picks(nodes@, filter@, nodes@.len() as int).len() - kept(
                        picks(nodes@, filter@, nodes@.len() as int),
                    ).len()
                }
            },
            Err(error) => bake_step(old(pak)@, key@, flatten_outcome(nodes@, filter@)).1 == Err::<
                nat,
                BakeError,
            >(error),
        },
{
    match pak.id(key) {
        Some(id) => Ok(Baked { id, skipped: 0 }),
        None => match flatten_scene(nodes, filter) {
            Ok(flat) => {
                let Flattened { model, skipped } = flat;
                let id = pak.push_model(key.clone(), model);
                Ok(Baked { id, skipped })
            },
            Err(error) => Err(error),
        },
    }
}

} // verus!
