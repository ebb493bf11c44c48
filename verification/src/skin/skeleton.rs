//! A skeleton with its limbs read in, and the animations that move it.

use crate::addr::VirtAddr;
use crate::collect::{lemma_collect_err, lemma_collect_ok, spec_collect};
use crate::error::Error;
use crate::rom;
use crate::rom::{Reader, Segments};
use crate::skeleton_animation::{
    for_each_frame_data, spec_frame_count, spec_frame_results, spec_frames,
};
use crate::skin::{spec_limb_views, SkinLimb, SkinLimbView};
use vstd::prelude::*;

pub use crate::rom::{AnimationHeader, AnimationHeaderCommon, JointIndex};

verus! {

/// A skeleton: its limbs in the order of the limb table. The place of a
/// limb in the list is the number that `child` and `sibling` name it by.
#[derive(Debug, PartialEq)]
pub struct SkeletonHeader {
    pub limbs: Vec<SkinLimb>,
}

impl View for SkeletonHeader {
    type V = Seq<SkinLimbView>;

    open spec fn view(&self) -> Seq<SkinLimbView> {
        spec_limb_views(self.limbs@)
    }
}

/// For each of `raws`, the limb read in, or why it cannot be.
pub open spec fn spec_limb_results(segments: Segments, raws: Seq<rom::SkinLimb>) -> Seq<
    Result<SkinLimbView, Error>,
> {
    raws.map_values(|raw: rom::SkinLimb| SkinLimb::spec_read(segments, raw))
}

impl SkeletonHeader {
    /// The limbs of the skeleton at `addr`: its record, the limbs behind the
    /// table of addresses that the record names, and the payload of each.
    pub open spec fn spec_read(segments: Segments, addr: VirtAddr<rom::SkeletonHeader>) -> Result<
        Seq<SkinLimbView>,
        Error,
    > {
        match Reader::spec_read(segments, addr) {
            Err(e) => Err(e),
            Ok(header) => match Reader::spec_ptr_slice(segments, header.limbs, header.limb_count as nat) {
                Err(e) => Err(e),
                Ok(raws) => spec_collect(spec_limb_results(segments, raws)),
            },
        }
    }

    /// Reads the skeleton at `addr` with all its limbs.
    pub fn read(reader: &Reader, addr: VirtAddr<rom::SkeletonHeader>) -> (r: Result<
        SkeletonHeader,
        Error,
    >)
        ensures
            match r {
                Ok(skeleton) => Self::spec_read(reader@, addr) == Ok::<Seq<SkinLimbView>, Error>(
                    skeleton@,
                ),
                Err(e) => Self::spec_read(reader@, addr) == Err::<Seq<SkinLimbView>, Error>(e),
            },
    {
        let header = reader.read(addr)?;
        let raws = reader.ptr_slice_iter(header.limbs, header.limb_count as usize)?;
        let ghost results = spec_limb_results(reader@, raws@);
        let mut limbs: Vec<SkinLimb> = Vec::new();
        let mut i: usize = 0;
        while i < raws.len()
            invariant
                i <= raws@.len(),
                results == spec_limb_results(reader@, raws@),
                Reader::spec_read(reader@, addr) == Ok::<rom::SkeletonHeader, Error>(header),
                Reader::spec_ptr_slice(reader@, header.limbs, header.limb_count as nat) == Ok::<
                    Seq<rom::SkinLimb>,
                    Error,
                >(raws@),
                limbs@.len() == i,
                forall|j: int|
                    0 <= j < i ==> #[trigger] results[j] == Ok::<SkinLimbView, Error>(limbs@[j]@),
            decreases raws@.len() - i,
        {
            match SkinLimb::read(reader, &raws[i]) {
                Ok(limb) => {
                    limbs.push(limb);
                },
                Err(e) => {
                    proof {
                        lemma_collect_err(results, i as int, e);
                    }
                    return Err(e);
                },
            }
            i += 1;
        }
        proof {
            lemma_collect_ok(results, spec_limb_views(limbs@));
        }
        Ok(SkeletonHeader { limbs })
    }
}

/// The rotation of one joint in one frame, as the three angles that the
/// frame data holds for it.
#[derive(Clone, Copy, Debug, PartialEq, Eq)]
pub struct Joint {
    pub rot: [i16; 3],
}

/// One frame of an animation: a joint for each limb.
#[derive(Debug, PartialEq, Eq)]
pub struct Frame {
    pub joints: Vec<Joint>,
}

impl View for Frame {
    type V = Seq<[i16; 3]>;

    /// The angles of each joint.
    open spec fn view(&self) -> Seq<[i16; 3]> {
        self.joints@.map_values(|joint: Joint| joint.rot)
    }
}

/// The angles of each joint of each frame.
pub open spec fn spec_frame_views(frames: Seq<Frame>) -> Seq<Seq<[i16; 3]>> {
    frames.map_values(|frame: Frame| frame@)
}

/// An animation under its name.
#[derive(Debug, PartialEq, Eq)]
pub struct SkeletonAnimation {
    pub name: String,
    pub frames: Vec<Frame>,
}

impl SkeletonAnimation {
    /// Reads every frame of the animation that `animation` heads, with a
    /// joint for each limb of `skeleton`.
    pub fn create_from_header(
        name: String,
        r: &Reader,
        skeleton: &SkeletonHeader,
        animation: &AnimationHeader,
    ) -> (result: Result<Self, Error>)
        ensures
            match result {
                Ok(a) => a.name == name && spec_frames(r@, *animation, skeleton.limbs@.len())
                    == Ok::<Seq<Seq<[i16; 3]>>, Error>(spec_frame_views(a.frames@)),
                Err(e) => spec_frames(r@, *animation, skeleton.limbs@.len()) == Err::<
                    Seq<Seq<[i16; 3]>>,
                    Error,
                >(e),
            },
    {
        let limb_count = skeleton.limbs.len();
        let ghost results = spec_frame_results(r@, *animation, limb_count as nat);
        let frame_count: u16 = if animation.common.frame_count > 0 {
            animation.common.frame_count as u16
        } else {
            0
        };
        let mut frames: Vec<Frame> = Vec::new();
        let mut frame_index: u16 = 0;
        while frame_index < frame_count
            invariant
                frame_index <= frame_count,
                frame_count == spec_frame_count(*animation),
                limb_count == skeleton.limbs@.len(),
                results == spec_frame_results(r@, *animation, limb_count as nat),
                frames@.len() == frame_index,
                forall|j: int|
                    0 <= j < frame_index ==> #[trigger] results[j] == Ok::<Seq<[i16; 3]>, Error>(
                        frames@[j]@,
                    ),
            decreases frame_count - frame_index,
        {
            match for_each_frame_data(r, animation, frame_index, limb_count) {
                Ok(rots) => {
                    let mut joints: Vec<Joint> = Vec::new();
                    let mut i: usize = 0;
                    while i < rots.len()
                        invariant
                            i <= rots@.len(),
                            joints@.len() == i,
                            forall|j: int| 0 <= j < i ==> (#[trigger] joints@[j]).rot == rots@[j],
                        decreases rots@.len() - i,
                    {
                        joints.push(Joint { rot: rots[i] });
                        i += 1;
                    }
                    let frame = Frame { joints };
                    assert(frame@ =~= rots@);
                    frames.push(frame);
                },
                Err(e) => {
                    proof {
                        lemma_collect_err(results, frame_index as int, e);
                    }
                    return Err(e);
                },
            }
            frame_index += 1;
        }
        proof {
            lemma_collect_ok(results, spec_frame_views(frames@));
        }
        Ok(SkeletonAnimation { name, frames })
    }
}

} // verus!
