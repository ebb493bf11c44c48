use extract_assets::addr::{RawVirtAddr, VirtAddr};
use extract_assets::error::Error;
use extract_assets::rom::{
    AnimationHeader, AnimationHeaderCommon, JointIndex, ReadSegment, Reader, Segment,
    SkeletonHeader, SkinAnimatedLimbData, SkinLimb, SkinLimbModif, SkinLimbType,
    SkinTransformation, SkinVertex, Vtx, SEGMENT_MAX_LEN,
};

fn rom_reader(segment: Segment, data: Vec<u8>) -> Reader {
    let mut reader = Reader::new();
    reader.set_segment(segment, Some(data));
    reader
}

fn rom_at<T>(n: u32) -> VirtAddr<T> {
    RawVirtAddr::new(n).into()
}

#[test]
fn segment_numbers_are_those_of_the_address_format() {
    assert_eq!(Segment::Scene.number(), 2);
    assert_eq!(Segment::Room.number(), 3);
    assert_eq!(Segment::Keep.number(), 4);
    assert_eq!(Segment::FieldDungeonKeep.number(), 5);
    assert_eq!(Segment::Object.number(), 6);
    assert_eq!(Segment::LinkAnimation.number(), 7);
    assert_eq!(Segment::IconItemStatic.number(), 8);
}

#[test]
fn limb_type_from_discriminant() {
    assert_eq!(SkinLimbType::from_i32(4), Some(SkinLimbType::Animated));
    assert_eq!(SkinLimbType::from_i32(11), Some(SkinLimbType::Normal));
    assert_eq!(SkinLimbType::from_i32(0), None);
    assert_eq!(SkinLimbType::from_i32(5), None);
    assert_eq!(SkinLimbType::from_i32(-1), None);
}

#[test]
fn resolve_gives_the_bytes_from_the_offset_on() {
    let data: Vec<u8> = (0u8..32).collect();
    let reader = rom_reader(Segment::Object, data.clone());
    for offset in 0..32u32 {
        let bytes = reader.slice_from(RawVirtAddr::new(0x06000000 + offset)).unwrap();
        assert_eq!(bytes[0], data[offset as usize]);
        assert_eq!(bytes, &data[offset as usize..]);
    }
}

#[test]
fn resolve_in_an_unset_segment_fails() {
    let reader = Reader::new();
    for segment in 0..16u32 {
        assert_eq!(
            reader.slice_from(RawVirtAddr::new(segment << 24)),
            Err(Error::SegmentUnset)
        );
    }
    let reader = rom_reader(Segment::Object, vec![1, 2, 3]);
    assert_eq!(reader.slice_from(RawVirtAddr::new(0x07000000)), Err(Error::SegmentUnset));
    assert_eq!(reader.slice_from(RawVirtAddr::new(0x05000001)), Err(Error::SegmentUnset));
}

#[test]
fn resolve_at_or_behind_the_end_is_out_of_range() {
    let reader = rom_reader(Segment::Object, vec![1, 2, 3]);
    assert_eq!(reader.slice_from(RawVirtAddr::new(0x06000002)), Ok(&[3u8][..]));
    assert_eq!(reader.slice_from(RawVirtAddr::new(0x06000003)), Err(Error::AddressOutOfRange));
    assert_eq!(reader.slice_from(RawVirtAddr::new(0x06000004)), Err(Error::AddressOutOfRange));
    assert_eq!(reader.slice_from(RawVirtAddr::new(0x06FFFFFF)), Err(Error::AddressOutOfRange));
}

#[test]
fn resolve_in_an_empty_buffer_is_out_of_range() {
    let reader = rom_reader(Segment::Object, Vec::new());
    assert_eq!(reader.slice_from(RawVirtAddr::new(0x06000000)), Err(Error::AddressOutOfRange));
}

#[test]
fn resolve_ignores_the_top_bits_of_the_address() {
    let reader = rom_reader(Segment::Object, vec![9, 8, 7]);
    assert_eq!(reader.slice_from(RawVirtAddr::new(0x86000001)), Ok(&[8u8, 7][..]));
}

#[test]
fn set_segment_replaces_and_clears_a_buffer() {
    let mut reader = rom_reader(Segment::Keep, vec![1, 2]);
    reader.set_segment(Segment::Keep, Some(vec![5, 6, 7]));
    assert_eq!(reader.slice_from(RawVirtAddr::new(0x04000000)), Ok(&[5u8, 6, 7][..]));
    reader.set_segment(Segment::Room, Some(vec![9]));
    assert_eq!(reader.slice_from(RawVirtAddr::new(0x04000000)), Ok(&[5u8, 6, 7][..]));
    assert_eq!(reader.slice_from(RawVirtAddr::new(0x03000000)), Ok(&[9u8][..]));
    reader.set_segment(Segment::Keep, None);
    assert_eq!(reader.slice_from(RawVirtAddr::new(0x04000000)), Err(Error::SegmentUnset));
    assert_eq!(reader.slice_from(RawVirtAddr::new(0x03000000)), Ok(&[9u8][..]));
}

#[test]
fn a_segment_may_be_as_long_as_an_offset_reaches() {
    let mut data = vec![0u8; SEGMENT_MAX_LEN];
    data[SEGMENT_MAX_LEN - 1] = 0x5A;
    let reader = rom_reader(Segment::Scene, data);
    assert_eq!(reader.slice_from(RawVirtAddr::new(0x02FFFFFF)), Ok(&[0x5Au8][..]));
}

#[test]
fn a_longer_buffer_is_not_loaded() {
    let mut reader = rom_reader(Segment::Scene, vec![1, 2, 3]);
    assert!(!reader.load_segment(Segment::Scene, vec![0u8; SEGMENT_MAX_LEN + 1]));
    assert_eq!(reader.slice_from(RawVirtAddr::new(0x02000000)), Ok(&[1u8, 2, 3][..]));
    assert!(reader.load_segment(Segment::Scene, vec![7u8; SEGMENT_MAX_LEN]));
    assert_eq!(reader.slice_from(RawVirtAddr::new(0x02000000)).map(|b| b.len()), Ok(SEGMENT_MAX_LEN));
    assert!(reader.load_segment(Segment::Room, Vec::new()));
    assert_eq!(reader.slice_from(RawVirtAddr::new(0x03000000)), Err(Error::AddressOutOfRange));
}

#[test]
fn default_table_is_empty() {
    let reader = Reader::default();
    assert_eq!(reader.slice_from(RawVirtAddr::new(0x06000000)), Err(Error::SegmentUnset));
}

#[test]
fn read_i16_is_big_endian_and_signed() {
    let reader = rom_reader(Segment::Object, vec![0x01, 0x02, 0xFF, 0xFE, 0x80, 0x00, 0x7F, 0xFF]);
    assert_eq!(reader.read::<i16>(rom_at(0x06000000)), Ok(0x0102));
    assert_eq!(reader.read::<i16>(rom_at(0x06000002)), Ok(-2));
    assert_eq!(reader.read::<i16>(rom_at(0x06000004)), Ok(i16::MIN));
    assert_eq!(reader.read::<i16>(rom_at(0x06000006)), Ok(i16::MAX));
    assert_eq!(reader.read::<i16>(rom_at(0x06000001)), Ok(0x02FF));
}

#[test]
fn read_u64_and_addresses_are_big_endian() {
    let reader = rom_reader(
        Segment::Object,
        vec![0x01, 0x23, 0x45, 0x67, 0x89, 0xAB, 0xCD, 0xEF, 0x06, 0x00, 0x9D, 0x74],
    );
    assert_eq!(reader.read::<u64>(rom_at(0x06000000)), Ok(0x0123_4567_89AB_CDEF));
    assert_eq!(reader.read::<RawVirtAddr>(rom_at(0x06000008)), Ok(RawVirtAddr::new(0x06009D74)));
    assert_eq!(
        reader.read::<VirtAddr<SkinLimb>>(rom_at(0x06000008)),
        Ok(rom_at::<SkinLimb>(0x06009D74))
    );
    assert_eq!(reader.read::<u64>(rom_at(0x06000004)), Ok(0x89AB_CDEF_0600_9D74));
}

#[test]
fn read_fails_as_the_address_does() {
    let reader = rom_reader(Segment::Object, vec![0; 4]);
    assert_eq!(reader.read::<i16>(rom_at(0x05000000)), Err(Error::SegmentUnset));
    assert_eq!(reader.read::<i16>(rom_at(0x06000004)), Err(Error::AddressOutOfRange));
    assert_eq!(reader.read::<SkinLimb>(rom_at(0x07000000)), Err(Error::SegmentUnset));
}

#[test]
fn read_is_truncated_where_the_segment_ends_early() {
    let reader = rom_reader(Segment::Object, vec![0; 16]);
    assert_eq!(reader.read::<i16>(rom_at(0x0600000F)), Err(Error::Truncated));
    assert_eq!(reader.read::<i16>(rom_at(0x0600000E)), Ok(0));
    assert_eq!(reader.read::<SkinLimb>(rom_at(0x06000001)), Err(Error::Truncated));
    assert!(reader.read::<SkinLimb>(rom_at(0x06000000)).is_ok());
    assert_eq!(reader.read::<u64>(rom_at(0x06000009)), Err(Error::Truncated));
    assert_eq!(reader.read::<RawVirtAddr>(rom_at(0x0600000D)), Err(Error::Truncated));
    assert_eq!(reader.read::<SkeletonHeader>(rom_at(0x0600000C)), Err(Error::Truncated));
    assert!(reader.read::<SkeletonHeader>(rom_at(0x0600000B)).is_ok());
}

#[test]
fn record_sizes() {
    assert_eq!(<i16 as ReadSegment>::size(), 2);
    assert_eq!(<u64 as ReadSegment>::size(), 8);
    assert_eq!(<RawVirtAddr as ReadSegment>::size(), 4);
    assert_eq!(<VirtAddr<SkinLimb> as ReadSegment>::size(), 4);
    assert_eq!(SkeletonHeader::size(), 5);
    assert_eq!(SkinLimb::size(), 0x10);
    assert_eq!(SkinAnimatedLimbData::size(), 0xC);
    assert_eq!(Vtx::size(), 0x10);
    assert_eq!(SkinLimbModif::size(), 0x10);
    assert_eq!(SkinTransformation::size(), 0xA);
    assert_eq!(SkinVertex::size(), 0xA);
    assert_eq!(AnimationHeaderCommon::size(), 4);
    assert_eq!(AnimationHeader::size(), 0x10);
    assert_eq!(JointIndex::size(), 6);
}

#[test]
fn skeleton_header_layout() {
    let bytes = [0x06, 0x00, 0x9D, 0x74, 0x17, 0xEE, 0xEE, 0xEE];
    assert_eq!(
        SkeletonHeader::read(&bytes),
        SkeletonHeader { limbs: rom_at(0x06009D74), limb_count: 0x17 }
    );
}

#[test]
fn skin_limb_layout() {
    let bytes = [
        0x00, 0x01, 0xFF, 0xFE, 0x01, 0x2C, 0x03, 0xFF, 0x00, 0x00, 0x00, 0x0B, 0x06, 0x00, 0x01,
        0x00,
    ];
    assert_eq!(
        SkinLimb::read(&bytes),
        SkinLimb {
            joint_pos: [1, -2, 300],
            child: 3,
            sibling: 0xFF,
            segment_type: 11,
            segment: RawVirtAddr::new(0x06000100),
        }
    );
    let negative = [
        0x80, 0x00, 0x7F, 0xFF, 0x00, 0x00, 0x00, 0x01, 0xFF, 0xFF, 0xFF, 0xFC, 0x00, 0x00, 0x00,
        0x00,
    ];
    assert_eq!(
        SkinLimb::read(&negative),
        SkinLimb {
            joint_pos: [i16::MIN, i16::MAX, 0],
            child: 0,
            sibling: 1,
            segment_type: -4,
            segment: RawVirtAddr::new(0),
        }
    );
    let extreme = [0, 0, 0, 0, 0, 0, 0, 0, 0x80, 0, 0, 0, 0xFF, 0xFF, 0xFF, 0xFF];
    let limb = SkinLimb::read(&extreme);
    assert_eq!(limb.segment_type, i32::MIN);
    assert_eq!(limb.segment, RawVirtAddr::new(0xFFFFFFFF));
}

#[test]
fn skin_animated_limb_data_layout() {
    let bytes = [0x00, 0x03, 0x01, 0x02, 0x06, 0x00, 0x02, 0x00, 0x06, 0x00, 0x03, 0x00];
    assert_eq!(
        SkinAnimatedLimbData::read(&bytes),
        SkinAnimatedLimbData {
            total_vtx_count: 3,
            limb_modif_count: 0x0102,
            limb_modifications: rom_at(0x06000200),
            dlist: RawVirtAddr::new(0x06000300),
        }
    );
}

#[test]
fn vtx_layout() {
    let bytes = [
        0x00, 0x0A, 0xFF, 0xF6, 0x7F, 0xFF, 0x00, 0x01, 0x01, 0x00, 0xFF, 0xFF, 0x11, 0x22, 0x33,
        0x44,
    ];
    assert_eq!(
        Vtx::read(&bytes),
        Vtx { pos: [10, -10, 32767], flag: 1, tpos: [256, -1], cn: [0x11, 0x22, 0x33, 0x44] }
    );
}

#[test]
fn skin_limb_modif_layout_skips_its_padding() {
    let bytes = [
        0x00, 0x02, 0x00, 0x01, 0x12, 0x34, 0xDE, 0xAD, 0x06, 0x00, 0x04, 0x00, 0x06, 0x00, 0x05,
        0x00,
    ];
    assert_eq!(
        SkinLimbModif::read(&bytes),
        SkinLimbModif {
            vtx_count: 2,
            transform_count: 1,
            unk_4: 0x1234,
            skin_vertices: rom_at(0x06000400),
            limb_transformations: rom_at(0x06000500),
        }
    );
}

#[test]
fn skin_transformation_layout_skips_its_padding() {
    let bytes = [0x07, 0xEE, 0x00, 0x64, 0xFF, 0x9C, 0x00, 0x00, 0x64, 0xEE];
    assert_eq!(
        SkinTransformation::read(&bytes),
        SkinTransformation { limb_index: 7, x: 100, y: -100, z: 0, scale: 100 }
    );
}

#[test]
fn skin_vertex_layout() {
    let bytes = [0x00, 0x02, 0x00, 0x20, 0xFF, 0xE0, 0x7F, 0x80, 0xFF, 0xC8];
    assert_eq!(
        SkinVertex::read(&bytes),
        SkinVertex { index: 2, s: 32, t: -32, norm_x: 127, norm_y: -128, norm_z: -1, alpha: 200 }
    );
}

#[test]
fn animation_header_layout_skips_its_padding() {
    let bytes = [
        0x00, 0x03, 0xEE, 0xEE, 0x06, 0x00, 0x02, 0x00, 0x06, 0x00, 0x03, 0x00, 0x00, 0x05, 0xEE,
        0xEE,
    ];
    assert_eq!(
        AnimationHeader::read(&bytes),
        AnimationHeader {
            common: AnimationHeaderCommon { frame_count: 3 },
            frame_data: rom_at(0x06000200),
            joint_indicies: rom_at(0x06000300),
            static_index_max: 5,
        }
    );
    assert_eq!(
        AnimationHeaderCommon::read(&[0xFF, 0xFF, 0x12, 0x34]),
        AnimationHeaderCommon { frame_count: -1 }
    );
}

#[test]
fn joint_index_layout() {
    assert_eq!(
        JointIndex::read(&[0x00, 0x01, 0x80, 0x00, 0xFF, 0xFF]),
        JointIndex { x: 1, y: 0x8000, z: 0xFFFF }
    );
}

#[test]
fn read_slice_reads_records_one_after_the_other() {
    let reader = rom_reader(
        Segment::Object,
        vec![0xAA, 0, 1, 0, 2, 0, 3, 0, 4, 0, 5, 0, 6, 0, 7, 0, 8, 0, 9],
    );
    assert_eq!(
        reader.read_slice::<JointIndex>(rom_at(0x06000001), 3),
        Ok(vec![
            JointIndex { x: 1, y: 2, z: 3 },
            JointIndex { x: 4, y: 5, z: 6 },
            JointIndex { x: 7, y: 8, z: 9 },
        ])
    );
    assert_eq!(reader.read_slice::<i16>(rom_at(0x06000001), 2), Ok(vec![1, 2]));
    assert_eq!(reader.read_slice::<i16>(rom_at(0x06000001), 0), Ok(vec![]));
}

#[test]
fn read_slice_failures() {
    let reader = rom_reader(Segment::Object, vec![0; 12]);
    assert_eq!(reader.read_slice::<JointIndex>(rom_at(0x06000000), 2).map(|v| v.len()), Ok(2));
    assert_eq!(reader.read_slice::<JointIndex>(rom_at(0x06000000), 3), Err(Error::Truncated));
    assert_eq!(reader.read_slice::<JointIndex>(rom_at(0x06000001), 2), Err(Error::Truncated));
    assert_eq!(
        reader.read_slice::<JointIndex>(rom_at(0x06000000), usize::MAX),
        Err(Error::Truncated)
    );
    assert_eq!(reader.read_slice::<JointIndex>(rom_at(0x05000000), 0), Err(Error::SegmentUnset));
    assert_eq!(
        reader.read_slice::<JointIndex>(rom_at(0x0600000C), 0),
        Err(Error::AddressOutOfRange)
    );
}

#[test]
fn pointer_table_is_followed() {
    let mut data = vec![0u8; 0x40];
    data[0..4].copy_from_slice(&[0x06, 0x00, 0x00, 0x20]);
    data[4..8].copy_from_slice(&[0x06, 0x00, 0x00, 0x10]);
    data[8..12].copy_from_slice(&[0x06, 0x00, 0x00, 0x20]);
    data[0x10..0x16].copy_from_slice(&[0, 1, 0, 2, 0, 3]);
    data[0x20..0x26].copy_from_slice(&[0, 4, 0, 5, 0, 6]);
    let reader = rom_reader(Segment::Object, data);
    assert_eq!(
        reader.ptr_slice_iter::<JointIndex>(rom_at(0x06000000), 3),
        Ok(vec![
            JointIndex { x: 4, y: 5, z: 6 },
            JointIndex { x: 1, y: 2, z: 3 },
            JointIndex { x: 4, y: 5, z: 6 },
        ])
    );
    assert_eq!(reader.ptr_slice_iter::<JointIndex>(rom_at(0x06000000), 0), Ok(vec![]));
}

#[test]
fn pointer_table_failures_are_not_passed_over() {
    let mut data = vec![0u8; 0x20];
    data[0..4].copy_from_slice(&[0x06, 0x00, 0x00, 0x10]);
    data[4..8].copy_from_slice(&[0x07, 0x00, 0x00, 0x00]);
    data[8..12].copy_from_slice(&[0x06, 0x00, 0x00, 0x1E]);
    data[12..16].copy_from_slice(&[0x06, 0x00, 0x00, 0x20]);
    let reader = rom_reader(Segment::Object, data);
    assert!(reader.ptr_slice_iter::<JointIndex>(rom_at(0x06000000), 1).is_ok());
    assert_eq!(
        reader.ptr_slice_iter::<JointIndex>(rom_at(0x06000000), 2),
        Err(Error::SegmentUnset)
    );
    assert_eq!(
        reader.ptr_slice_iter::<JointIndex>(rom_at(0x06000000), 4),
        Err(Error::SegmentUnset)
    );
    assert_eq!(reader.ptr_slice_iter::<JointIndex>(rom_at(0x06000008), 1), Err(Error::Truncated));
    assert_eq!(
        reader.ptr_slice_iter::<JointIndex>(rom_at(0x0600000C), 1),
        Err(Error::AddressOutOfRange)
    );
    assert_eq!(reader.ptr_slice_iter::<JointIndex>(rom_at(0x0600001D), 1), Err(Error::Truncated));
    assert_eq!(reader.ptr_slice_iter::<JointIndex>(rom_at(0x05000000), 1), Err(Error::SegmentUnset));
}

#[test]
fn vtx_is_written_big_endian() {
    let vtx = Vtx { pos: [10, -10, 32767], flag: 1, tpos: [256, -1], cn: [0x11, 0x22, 0x33, 0x44] };
    let mut bytes = vec![0xAB];
    vtx.write(&mut bytes);
    assert_eq!(
        bytes,
        vec![
            0xAB, 0x00, 0x0A, 0xFF, 0xF6, 0x7F, 0xFF, 0x00, 0x01, 0x01, 0x00, 0xFF, 0xFF, 0x11,
            0x22, 0x33, 0x44,
        ]
    );
}

#[test]
fn vtx_round_trips_through_its_bytes() {
    for value in [i16::MIN, -257, -256, -255, -1, 0, 1, 255, 256, 257, i16::MAX] {
        let vtx = Vtx { pos: [value, 0, -value.max(-i16::MAX)], flag: value, tpos: [0, value], cn: [1, 2, 3, 4] };
        let mut bytes = Vec::new();
        vtx.write(&mut bytes);
        assert_eq!(bytes.len(), 16);
        assert_eq!(Vtx::read(&bytes), vtx);
    }
}

#[test]
fn zero_vtx_is_all_zero() {
    let mut bytes = Vec::new();
    Vtx::zero().write(&mut bytes);
    assert_eq!(bytes, vec![0u8; 16]);
}
