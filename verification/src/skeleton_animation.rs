//! Animation tracks: for each frame and each limb, three angles that are
//! looked up in a table of frame data.

use crate::addr::VirtAddr;
use crate::collect::{lemma_collect_err, lemma_collect_ok, spec_collect};
use crate::error::Error;
use crate::rom::{AnimationHeader, JointIndex, Reader, Segments};
use std::marker::PhantomData;
use vstd::prelude::*;

verus! {

/// Where in the frame data the entry `n` of a joint index stands at the
/// frame `frame`: an entry below `static_index_max` is the same in every
/// frame, and any other entry moves on by one with each frame.
pub open spec fn spec_frame_index(static_index_max: u16, frame: u16, n: u16) -> int {
    if n >= static_index_max {
        frame + n
    } else {
        n as int
    }
}

/// The address of that entry of the frame data: two bytes for each entry.
pub open spec fn spec_frame_addr(header: AnimationHeader, frame: u16, n: u16) -> VirtAddr<i16> {
    VirtAddr(
        header.frame_data.0.spec_offset(2 * spec_frame_index(header.static_index_max, frame, n)),
        PhantomData,
    )
}

/// The angle that the entry `n` of a joint index stands for at the frame
/// `frame`.
pub open spec fn spec_frame_value(segments: Segments, header: AnimationHeader, frame: u16, n: u16)
    -> Result<i16, Error> {
    Reader::spec_read(segments, spec_frame_addr(header, frame, n))
}

/// The three angles of a joint at the frame `frame`; they are looked up in
/// the order x, y, z, and the first failure is the failure of the whole.
pub open spec fn spec_joint(
    segments: Segments,
    header: AnimationHeader,
    frame: u16,
    index: JointIndex,
) -> Result<[i16; 3], Error> {
    match spec_frame_value(segments, header, frame, index.x) {
        Err(e) => Err(e),
        Ok(x) => match spec_frame_value(segments, header, frame, index.y) {
            Err(e) => Err(e),
            Ok(y) => match spec_frame_value(segments, header, frame, index.z) {
                Err(e) => Err(e),
                Ok(z) => Ok([x, y, z]),
            },
        },
    }
}

/// For each of `indices`, the angles of its joint at the frame `frame`, or
/// why they cannot be read.
pub open spec fn spec_joint_results(
    segments: Segments,
    header: AnimationHeader,
    frame: u16,
    indices: Seq<JointIndex>,
) -> Seq<Result<[i16; 3], Error>> {
    indices.map_values(|index: JointIndex| spec_joint(segments, header, frame, index))
}

/// The angles of every limb at the frame `frame`. The table of joint indices
/// has one entry for each limb behind an entry for the root, which gives no
/// joint.
pub open spec fn spec_frame_data(
    segments: Segments,
    header: AnimationHeader,
    frame: u16,
    limb_count: nat,
) -> Result<Seq<[i16; 3]>, Error> {
    match Reader::spec_read_slice(segments, header.joint_indicies, limb_count + 1) {
        Err(e) => Err(e),
        Ok(indices) => spec_collect(spec_joint_results(segments, header, frame, indices.skip(1))),
    }
}

/// The number of frames of an animation: a count below zero means none.
pub open spec fn spec_frame_count(header: AnimationHeader) -> nat {
    if header.common.frame_count > 0 {
        header.common.frame_count as nat
    } else {
        0
    }
}

/// For each frame of the animation, the angles of every limb, or why they
/// cannot be read.
pub open spec fn spec_frame_results(
    segments: Segments,
    header: AnimationHeader,
    limb_count: nat,
) -> Seq<Result<Seq<[i16; 3]>, Error>> {
    Seq::new(
        spec_frame_count(header),
        |frame: int| spec_frame_data(segments, header, frame as u16, limb_count),
    )
}

/// The angles of every limb in every frame; the first frame that cannot be
/// read is the failure of the whole.
pub open spec fn spec_frames(
    segments: Segments,
    header: AnimationHeader,
    limb_count: nat,
) -> Result<Seq<Seq<[i16; 3]>>, Error> {
    spec_collect(spec_frame_results(segments, header, limb_count))
}

/// Looks up the angle that the entry `n` of a joint index stands for at the
/// frame `frame_index`.
pub fn read_frame_value(
    reader: &Reader,
    animation_header: &AnimationHeader,
    frame_index: u16,
    n: u16,
) -> (r: Result<i16, Error>)
    ensures
        r == spec_frame_value(reader@, *animation_header, frame_index, n),
{
    let index: i32 = if n >= animation_header.static_index_max {
        frame_index as i32 + n as i32
    } else {
        n as i32
    };
    reader.read(animation_header.frame_data + index)
}

/// Reads the three angles of the joint that `index` stands for.
pub fn read_joint(
    reader: &Reader,
    animation_header: &AnimationHeader,
    frame_index: u16,
    index: &JointIndex,
) -> (r: Result<[i16; 3], Error>)
    ensures
        r == spec_joint(reader@, *animation_header, frame_index, *index),
{
    let x = read_frame_value(reader, animation_header, frame_index, index.x)?;
    let y = read_frame_value(reader, animation_header, frame_index, index.y)?;
    let z = read_frame_value(reader, animation_header, frame_index, index.z)?;
    Ok([x, y, z])
}

/// Reads the angles of each of `limb_count` limbs at the frame
/// `frame_index`.
pub fn for_each_frame_data(
    reader: &Reader,
    animation_header: &AnimationHeader,
    frame_index: u16,
    limb_count: usize,
) -> (r: Result<Vec<[i16; 3]>, Error>)
    ensures
        match r {
            Ok(joints) => spec_frame_data(
                reader@,
                *animation_header,
                frame_index,
                limb_count as nat,
            ) == Ok::<Seq<[i16; 3]>, Error>(joints@),
            Err(e) => spec_frame_data(reader@, *animation_header, frame_index, limb_count as nat)
                == Err::<Seq<[i16; 3]>, Error>(e),
        },
{
    let count = match limb_count.checked_add(1) {
        Some(count) => count,
        None => {
            // So many records fit in no segment: the read fails as the
            // address does, or for want of bytes.
            let bytes = reader.slice_from(animation_header.joint_indicies.0)?;
            assert(bytes@.len() < (limb_count + 1) * 6);
            return Err(Error::Truncated);
        },
    };
    let joint_indicies = reader.read_slice(animation_header.joint_indicies, count)?;
    let ghost results = spec_joint_results(
        reader@,
        *animation_header,
        frame_index,
        joint_indicies@.skip(1),
    );
    let mut joints: Vec<[i16; 3]> = Vec::new();
    let mut limb_index: usize = 0;
    while limb_index < limb_count
        invariant
            limb_index <= limb_count,
            joint_indicies@.len() == limb_count + 1,
            Reader::spec_read_slice(reader@, animation_header.joint_indicies, (limb_count + 1) as nat)
                == Ok::<Seq<JointIndex>, Error>(joint_indicies@),
            results == spec_joint_results(
                reader@,
                *animation_header,
                frame_index,
                joint_indicies@.skip(1),
            ),
            joints@.len() == limb_index,
            forall|j: int|
                0 <= j < limb_index ==> #[trigger] results[j] == Ok::<[i16; 3], Error>(joints@[j]),
        decreases limb_count - limb_index,
    {
        let joint_index = &joint_indicies[limb_index + 1];
        assert(joint_indicies@.skip(1)[limb_index as int] == *joint_index);
        match read_joint(reader, animation_header, frame_index, joint_index) {
            Ok(joint) => {
                joints.push(joint);
            },
            Err(e) => {
                proof {
                    lemma_collect_err(results, limb_index as int, e);
                }
                return Err(e);
            },
        }
        limb_index += 1;
    }
    proof {
        lemma_collect_ok(results, joints@);
    }
    Ok(joints)
}

/// An entry of a joint index below the threshold names the same entry of the
/// frame data in every frame, so the angle read for it is the same in any
/// two frames. An entry at or above the threshold names, at the frame
/// `first`, the entry of the frame data that lies `first` places behind it.
pub proof fn lemma_static_and_dynamic(
    segments: Segments,
    header: AnimationHeader,
    first: u16,
    second: u16,
    n: u16,
)
    ensures
        n < header.static_index_max ==> spec_frame_value(segments, header, first, n)
            == spec_frame_value(segments, header, second, n),
        n >= header.static_index_max ==> spec_frame_value(segments, header, first, n)
            == Reader::spec_read::<i16>(
            segments,
            VirtAddr(header.frame_data.0.spec_offset(2 * (first + n)), PhantomData),
        ),
{
}

} // verus!
