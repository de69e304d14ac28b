//! The skin baker: each joint of a skin paired with its inverse-bind matrix.

use crate::check::{check_skin, paired_joints, skin_fault};
use crate::error::BakeError;
use crate::model::{joint_views, Joint, JointView};
use crate::scene::SourceSkin;
use vstd::prelude::*;

verus! {

/// The joints of a sound skin, each under its name and with its matrix, in
/// declaration order. Joints for which there is no matrix, and matrices for
/// which there is no joint, are left out.
pub open spec fn baked_skin(skin: SourceSkin) -> Seq<JointView> {
    let matrices = skin.inverse_binds->0@;
    Seq::new(
        paired_joints(skin.joints@.len(), matrices.len()),
        |j: int| JointView { name: skin.joints@[j]->0@, inverse_bind: matrices[j] },
    )
}

/// Pairs the joints of a sound skin with their matrices.
pub(crate) fn build_skin(skin: &SourceSkin) -> (joints: Vec<Joint>)
    requires
        skin_fault(*skin) is None,
    ensures
        joint_views(joints@) == baked_skin(*skin),
{
    let matrices = skin.inverse_binds.as_ref().unwrap();
    let paired: usize = if skin.joints.len() <= matrices.len() {
        skin.joints.len()
    } else {
        matrices.len()
    };
    let mut joints: Vec<Joint> = Vec::new();
    let mut j: usize = 0;
    while j < paired
        invariant
            skin_fault(*skin) is None,
            skin.inverse_binds == Some(*matrices),
            paired == paired_joints(skin.joints@.len(), matrices@.len()),
            j <= paired,
            joints@.len() == j,
            forall|i: int| 0 <= i < j ==> (#[trigger] joints@[i])@ == baked_skin(*skin)[i],
        decreases paired - j,
    {
        assert(skin.joints@[j as int] is Some);
        let name: String = skin.joints[j].as_ref().unwrap().clone();
        joints.push(Joint { name, inverse_bind: matrices[j] });
        j += 1;
    }
    assert(joint_views(joints@) =~= baked_skin(*skin));
    joints
}

/// Binds the joints of a skin to their inverse-bind matrices, in declaration
/// order. Fails when the skin has no matrices, or when a joint that is
/// reached while pairing has no name.
pub fn bake_skin(skin: &SourceSkin) -> (baked: Result<Vec<Joint>, BakeError>)
    ensures
        match baked {
            Ok(joints) => skin_fault(*skin) is None && joint_views(joints@) == baked_skin(*skin),
            Err(error) => skin_fault(*skin) == Some(error),
        },
{
    match check_skin(skin) {
        Ok(_) => Ok(build_skin(skin)),
        Err(error) => Err(error),
    }
}

} // verus!
