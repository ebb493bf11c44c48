//! What is read depends on the loaded segments alone.

use crate::addr::{RawVirtAddr, VirtAddr};
use crate::dlist::spec_dlist;
use crate::rom;
use crate::rom::{AnimationHeader, Reader, Segment};
use crate::skeleton::spec_limb_meshes;
use crate::skin::skeleton::SkeletonHeader;
use crate::skin::{spec_animation, SkinLimbView};
use vstd::prelude::*;

verus! {

/// Re-running an extraction against the same loaded segments gives the same
/// result: the mesh of a display list, the limbs of a skeleton, the meshes of
/// its limbs and the frames of an animation are the same for two tables that
/// hold the same bytes, and so is the failure where there is one.
pub proof fn lemma_extraction_deterministic(
    a: Reader,
    b: Reader,
    dlist: RawVirtAddr,
    skeleton: VirtAddr<rom::SkeletonHeader>,
    animation: VirtAddr<AnimationHeader>,
    limb_count: nat,
    segment: Segment,
    limbs: Seq<SkinLimbView>,
    points: Seq<Seq<[i16; 3]>>,
    skip_single: bool,
)
    requires
        a@ == b@,
    ensures
        spec_dlist(a@, dlist) == spec_dlist(b@, dlist),
        SkeletonHeader::spec_read(a@, skeleton) == SkeletonHeader::spec_read(b@, skeleton),
        spec_animation(a@, animation, limb_count) == spec_animation(b@, animation, limb_count),
        spec_limb_meshes(a@, segment, limbs, points, skip_single, limbs.len()) == spec_limb_meshes(
            b@,
            segment,
            limbs,
            points,
            skip_single,
            limbs.len(),
        ),
{
}

} // verus!
