//! An offline model compiler. It turns the meshes of a 3D scene into one
//! compact model that a GPU renderer binds as it is: an index buffer, a vertex
//! buffer, and a write mask that lets a compute pass rebuild per-vertex
//! attributes without locks or atomics.
//!
//! The way from a scene to a model:
//! - [`select`] picks the nodes that go in and names their meshes;
//! - [`width`] decides one index width for the whole model;
//! - [`check`] finds what makes a scene unfit for baking;
//! - [`flatten`] lays the geometry out, with [`skin`] for the joints;
//! - [`write_mask`] marks the designated writer of every vertex;
//! - [`pak`] keeps each baked model under its key.
//!
//! Every multi-byte value in the buffers is stored least significant byte
//! first, whatever the machine that bakes. Real numbers are carried as the bit
//! patterns of their IEEE 754 single-precision form.

pub mod arena;
pub mod bytes;
pub mod check;
pub mod error;
pub mod flatten;
pub mod index;
pub mod layout;
pub mod model;
pub mod modes;
pub mod pak;
pub mod scene;
pub mod select;
pub mod skin;
pub mod width;
pub mod write_mask;
