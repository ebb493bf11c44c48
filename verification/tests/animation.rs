use extract_assets::addr::{RawVirtAddr, VirtAddr};
use extract_assets::error::Error;
use extract_assets::rom::{AnimationHeader, AnimationHeaderCommon, JointIndex, Reader, Segment};
use extract_assets::skeleton_animation::{for_each_frame_data, read_frame_value, read_joint};
use extract_assets::skin::skeleton::{Frame, Joint, SkeletonAnimation, SkeletonHeader};
use extract_assets::skin::{Skin, SkinLimb};

/// Segment 6: an animation header at 0, a joint index table for two limbs
/// and the root at 0x10, and sixty entries of frame data at 0x40, where the
/// entry `i` holds `100 * i`, but the entry 59 holds -1.
fn anim_image(frame_count: i16) -> Reader {
    let mut data = vec![0u8; 0x40];
    data[0..2].copy_from_slice(&frame_count.to_be_bytes());
    data[2..4].copy_from_slice(&[0xEE, 0xEE]);
    data[4..8].copy_from_slice(&[0x06, 0, 0, 0x40]);
    data[8..12].copy_from_slice(&[0x06, 0, 0, 0x10]);
    data[12..14].copy_from_slice(&[0x00, 0x03]);
    let table: [u16; 9] = [57, 58, 59, 0, 1, 2, 3, 2, 4];
    for (i, n) in table.iter().enumerate() {
        data[0x10 + 2 * i..0x12 + 2 * i].copy_from_slice(&n.to_be_bytes());
    }
    for i in 0..60i16 {
        let value: i16 = if i == 59 { -1 } else { 100 * i };
        data.extend_from_slice(&value.to_be_bytes());
    }
    let mut reader = Reader::new();
    reader.set_segment(Segment::Object, Some(data));
    reader
}

fn anim_header(reader: &Reader) -> AnimationHeader {
    reader.read(RawVirtAddr::new(0x06000000).into()).unwrap()
}

fn anim_skeleton(limbs: usize) -> SkeletonHeader {
    SkeletonHeader {
        limbs: (0..limbs)
            .map(|_| SkinLimb {
                joint_pos: [0, 0, 0],
                child: 0xFF,
                sibling: 0xFF,
                segment_type: 0,
                skin_limb_type: None,
            })
            .collect(),
    }
}

fn anim_frame(rots: &[[i16; 3]]) -> Frame {
    Frame { joints: rots.iter().map(|rot| Joint { rot: *rot }).collect() }
}

#[test]
fn animation_header_is_read_from_the_image() {
    let reader = anim_image(3);
    assert_eq!(
        anim_header(&reader),
        AnimationHeader {
            common: AnimationHeaderCommon { frame_count: 3 },
            frame_data: RawVirtAddr::new(0x06000040).into(),
            joint_indicies: RawVirtAddr::new(0x06000010).into(),
            static_index_max: 3,
        }
    );
}

#[test]
fn static_entry_is_the_same_in_every_frame() {
    let reader = anim_image(3);
    let header = anim_header(&reader);
    for n in 0..3u16 {
        let at_5 = read_frame_value(&reader, &header, 5, n);
        let at_50 = read_frame_value(&reader, &header, 50, n);
        assert_eq!(at_5, Ok(100 * n as i16));
        assert_eq!(at_5, at_50);
        assert_eq!(read_frame_value(&reader, &header, 0, n), at_5);
        assert_eq!(read_frame_value(&reader, &header, u16::MAX, n), at_5);
    }
}

#[test]
fn dynamic_entry_moves_with_the_frame() {
    let reader = anim_image(3);
    let header = anim_header(&reader);
    assert_eq!(read_frame_value(&reader, &header, 5, 3), Ok(800));
    assert_eq!(read_frame_value(&reader, &header, 6, 3), Ok(900));
    assert_ne!(
        read_frame_value(&reader, &header, 5, 3),
        read_frame_value(&reader, &header, 6, 3)
    );
    assert_eq!(read_frame_value(&reader, &header, 0, 3), Ok(300));
    assert_eq!(read_frame_value(&reader, &header, 0, 4), Ok(400));
    assert_eq!(read_frame_value(&reader, &header, 50, 8), Ok(5800));
    assert_eq!(read_frame_value(&reader, &header, 50, 9), Ok(-1));
}

#[test]
fn threshold_of_zero_makes_every_entry_dynamic() {
    let reader = anim_image(3);
    let mut header = anim_header(&reader);
    header.static_index_max = 0;
    assert_eq!(read_frame_value(&reader, &header, 7, 0), Ok(700));
    assert_eq!(read_frame_value(&reader, &header, 7, 2), Ok(900));
    header.static_index_max = u16::MAX;
    assert_eq!(read_frame_value(&reader, &header, 7, 2), Ok(200));
    assert_eq!(read_frame_value(&reader, &header, 7, 58), Ok(5800));
}

#[test]
fn frame_value_failures() {
    let reader = anim_image(3);
    let mut header = anim_header(&reader);
    assert_eq!(read_frame_value(&reader, &header, 0, 60), Err(Error::AddressOutOfRange));
    assert_eq!(read_frame_value(&reader, &header, 56, 4), Err(Error::AddressOutOfRange));
    assert_eq!(read_frame_value(&reader, &header, u16::MAX, u16::MAX), Err(Error::AddressOutOfRange));
    header.frame_data = RawVirtAddr::new(0x06000041).into();
    assert_eq!(read_frame_value(&reader, &header, 0, 59), Err(Error::Truncated));
    assert_eq!(read_frame_value(&reader, &header, 0, 1), Ok(0x6400));
    header.frame_data = RawVirtAddr::new(0x07000000).into();
    assert_eq!(read_frame_value(&reader, &header, 0, 0), Err(Error::SegmentUnset));
}

#[test]
fn joint_reads_its_three_angles() {
    let reader = anim_image(3);
    let header = anim_header(&reader);
    let index = JointIndex { x: 0, y: 2, z: 4 };
    assert_eq!(read_joint(&reader, &header, 0, &index), Ok([0, 200, 400]));
    assert_eq!(read_joint(&reader, &header, 10, &index), Ok([0, 200, 1400]));
    let outside = JointIndex { x: 0, y: 2, z: 60 };
    assert_eq!(read_joint(&reader, &header, 0, &outside), Err(Error::AddressOutOfRange));
}

#[test]
fn frame_has_a_joint_for_each_limb_and_none_for_the_root() {
    let reader = anim_image(3);
    let header = anim_header(&reader);
    assert_eq!(for_each_frame_data(&reader, &header, 0, 2), Ok(vec![[0, 100, 200], [300, 200, 400]]));
    assert_eq!(for_each_frame_data(&reader, &header, 1, 2), Ok(vec![[0, 100, 200], [400, 200, 500]]));
    assert_eq!(for_each_frame_data(&reader, &header, 1, 1), Ok(vec![[0, 100, 200]]));
    assert_eq!(for_each_frame_data(&reader, &header, 1, 0), Ok(vec![]));
}

#[test]
fn root_entry_is_read_over_but_not_looked_up() {
    let reader = anim_image(3);
    let header = anim_header(&reader);
    assert_eq!(
        for_each_frame_data(&reader, &header, 10, 2),
        Ok(vec![[0, 100, 200], [1300, 200, 1400]])
    );
    assert_eq!(read_frame_value(&reader, &header, 10, 57), Err(Error::AddressOutOfRange));
}

#[test]
fn frame_failures() {
    let reader = anim_image(3);
    let mut header = anim_header(&reader);
    assert_eq!(for_each_frame_data(&reader, &header, 56, 2), Err(Error::AddressOutOfRange));
    assert!(for_each_frame_data(&reader, &header, 55, 2).is_ok());
    assert_eq!(for_each_frame_data(&reader, &header, 0, 30), Err(Error::Truncated));
    assert_eq!(for_each_frame_data(&reader, &header, 0, usize::MAX), Err(Error::Truncated));
    header.joint_indicies = RawVirtAddr::new(0x05000000).into();
    assert_eq!(for_each_frame_data(&reader, &header, 0, 0), Err(Error::SegmentUnset));
    assert_eq!(for_each_frame_data(&reader, &header, 0, usize::MAX), Err(Error::SegmentUnset));
    header.joint_indicies = RawVirtAddr::new(0x060000B8).into();
    assert_eq!(for_each_frame_data(&reader, &header, 0, 0), Err(Error::AddressOutOfRange));
}

#[test]
fn animation_has_a_frame_for_each_count() {
    let reader = anim_image(3);
    let header = anim_header(&reader);
    let animation =
        SkeletonAnimation::create_from_header(String::from("gallop"), &reader, &anim_skeleton(2), &header);
    assert_eq!(
        animation,
        Ok(SkeletonAnimation {
            name: String::from("gallop"),
            frames: vec![
                anim_frame(&[[0, 100, 200], [300, 200, 400]]),
                anim_frame(&[[0, 100, 200], [400, 200, 500]]),
                anim_frame(&[[0, 100, 200], [500, 200, 600]]),
            ],
        })
    );
}

#[test]
fn animation_without_frames_or_limbs() {
    for frame_count in [0, -1, i16::MIN] {
        let reader = anim_image(frame_count);
        let header = anim_header(&reader);
        let animation =
            SkeletonAnimation::create_from_header(String::new(), &reader, &anim_skeleton(2), &header);
        assert_eq!(animation, Ok(SkeletonAnimation { name: String::new(), frames: vec![] }));
    }
    let reader = anim_image(2);
    let header = anim_header(&reader);
    let animation =
        SkeletonAnimation::create_from_header(String::from("a"), &reader, &anim_skeleton(0), &header);
    assert_eq!(
        animation,
        Ok(SkeletonAnimation { name: String::from("a"), frames: vec![anim_frame(&[]), anim_frame(&[])] })
    );
}

#[test]
fn animation_fails_at_its_first_bad_frame() {
    let reader = anim_image(57);
    let header = anim_header(&reader);
    assert_eq!(
        SkeletonAnimation::create_from_header(String::from("a"), &reader, &anim_skeleton(2), &header),
        Err(Error::AddressOutOfRange)
    );
    let reader = anim_image(56);
    let header = anim_header(&reader);
    let animation =
        SkeletonAnimation::create_from_header(String::from("a"), &reader, &anim_skeleton(2), &header)
            .unwrap();
    assert_eq!(animation.frames.len(), 56);
    assert_eq!(animation.frames[55], anim_frame(&[[0, 100, 200], [5800, 200, -1]]));
    assert_eq!(
        SkeletonAnimation::create_from_header(String::from("a"), &reader, &anim_skeleton(8), &header),
        Err(Error::AddressOutOfRange)
    );
}

#[test]
fn skin_gathers_its_animations() {
    let reader = anim_image(2);
    let mut skin = Skin { skeleton_header: anim_skeleton(2), animations: vec![] };
    let at = |n: u32| -> VirtAddr<AnimationHeader> { RawVirtAddr::new(n).into() };
    assert_eq!(skin.read_animation(String::from("first"), &reader, at(0x06000000)), Ok(()));
    assert_eq!(skin.read_animation(String::from("none"), &reader, at(0x07000000)), Err(Error::SegmentUnset));
    assert_eq!(skin.read_animation(String::from("short"), &reader, at(0x060000B0)), Err(Error::Truncated));
    assert_eq!(skin.read_animation(String::from("second"), &reader, at(0x06000000)), Ok(()));
    assert_eq!(skin.animations.len(), 2);
    assert_eq!(skin.animations[0].name, "first");
    assert_eq!(skin.animations[1].name, "second");
    assert_eq!(
        skin.animations[0].frames,
        vec![
            anim_frame(&[[0, 100, 200], [300, 200, 400]]),
            anim_frame(&[[0, 100, 200], [400, 200, 500]]),
        ]
    );
    assert_eq!(skin.animations[0], SkeletonAnimation {
        name: String::from("first"),
        frames: vec![
            anim_frame(&[[0, 100, 200], [300, 200, 400]]),
            anim_frame(&[[0, 100, 200], [400, 200, 500]]),
        ],
    });
    assert_eq!(skin.skeleton_header, anim_skeleton(2));
}
