//! Limbs with what they point at read in, and the deformation of an animated
//! limb's vertex buffer.

use crate::addr::{RawVirtAddr, VirtAddr};
use crate::collect::{lemma_collect_err, lemma_collect_ok, spec_collect};
use crate::error::Error;
use crate::rom;
use crate::rom::{Reader, Segments, SkinTransformation, SkinVertex, Vtx};
use crate::skeleton_animation::spec_frames;
use crate::skin::skeleton::{spec_frame_views, SkeletonAnimation, SkeletonHeader};
use vstd::prelude::*;

pub mod skeleton;

verus! {

/// One modification of an animated limb, with its vertices and
/// transformations read in.
#[derive(Debug, PartialEq)]
pub struct SkinLimbModif {
    pub unk_4: u16,
    pub skin_vertices: Vec<SkinVertex>,
    pub limb_transformations: Vec<SkinTransformation>,
}

/// What a modification holds.
pub struct SkinLimbModifView {
    pub unk_4: u16,
    pub skin_vertices: Seq<SkinVertex>,
    pub limb_transformations: Seq<SkinTransformation>,
}

impl View for SkinLimbModif {
    type V = SkinLimbModifView;

    open spec fn view(&self) -> SkinLimbModifView {
        SkinLimbModifView {
            unk_4: self.unk_4,
            skin_vertices: self.skin_vertices@,
            limb_transformations: self.limb_transformations@,
        }
    }
}

/// What each of `modifs` holds.
pub open spec fn spec_modif_views(modifs: Seq<SkinLimbModif>) -> Seq<SkinLimbModifView> {
    modifs.map_values(|m: SkinLimbModif| m@)
}

impl SkinLimbModif {
    /// The modification that `raw` describes: its vertices are read first,
    /// then its transformations, and the first read that fails is the
    /// failure of the whole.
    pub open spec fn spec_read(segments: Segments, raw: rom::SkinLimbModif) -> Result<
        SkinLimbModifView,
        Error,
    > {
        match Reader::spec_read_slice(segments, raw.skin_vertices, raw.vtx_count as nat) {
            Err(e) => Err(e),
            Ok(skin_vertices) => match Reader::spec_read_slice(
                segments,
                raw.limb_transformations,
                raw.transform_count as nat,
            ) {
                Err(e) => Err(e),
                Ok(limb_transformations) => Ok(
                    SkinLimbModifView { unk_4: raw.unk_4, skin_vertices, limb_transformations },
                ),
            },
        }
    }

    /// Reads in the vertices and the transformations of `raw`.
    pub fn read(reader: &Reader, raw: &rom::SkinLimbModif) -> (r: Result<SkinLimbModif, Error>)
        ensures
            match r {
                Ok(modif) => Self::spec_read(reader@, *raw) == Ok::<SkinLimbModifView, Error>(
                    modif@,
                ),
                Err(e) => Self::spec_read(reader@, *raw) == Err::<SkinLimbModifView, Error>(e),
            },
    {
        let skin_vertices = reader.read_slice(raw.skin_vertices, raw.vtx_count as usize)?;
        let limb_transformations = reader.read_slice(
            raw.limb_transformations,
            raw.transform_count as usize,
        )?;
        Ok(SkinLimbModif { unk_4: raw.unk_4, skin_vertices, limb_transformations })
    }
}

/// What an animated limb points at, with its modifications read in.
#[derive(Debug, PartialEq)]
pub struct SkinAnimatedLimbData {
    pub total_vtx_count: u16,
    pub limb_modifications: Vec<SkinLimbModif>,
    pub dlist: RawVirtAddr,
}

/// What the data of an animated limb holds.
pub struct SkinAnimatedLimbDataView {
    pub total_vtx_count: u16,
    pub limb_modifications: Seq<SkinLimbModifView>,
    pub dlist: RawVirtAddr,
}

impl View for SkinAnimatedLimbData {
    type V = SkinAnimatedLimbDataView;

    open spec fn view(&self) -> SkinAnimatedLimbDataView {
        SkinAnimatedLimbDataView {
            total_vtx_count: self.total_vtx_count,
            limb_modifications: spec_modif_views(self.limb_modifications@),
            dlist: self.dlist,
        }
    }
}

/// For each of `raws`, the modification read in, or why it cannot be.
pub open spec fn spec_modif_results(segments: Segments, raws: Seq<rom::SkinLimbModif>) -> Seq<
    Result<SkinLimbModifView, Error>,
> {
    raws.map_values(|raw: rom::SkinLimbModif| SkinLimbModif::spec_read(segments, raw))
}

/// Every vertex that a modification names lies inside a buffer of `len`
/// vertices.
pub open spec fn spec_vertices_in_range(modifs: Seq<SkinLimbModifView>, len: nat) -> bool {
    forall|m: int, k: int|
        0 <= m < modifs.len() && 0 <= k < modifs[m].skin_vertices.len() ==> (
        #[trigger] modifs[m].skin_vertices[k]).index < len
}

impl SkinAnimatedLimbData {
    /// The data at `addr`: its record, the run of modifications that the
    /// record names, and each of them read in, in order.
    pub open spec fn spec_read(segments: Segments, addr: VirtAddr<rom::SkinAnimatedLimbData>) -> Result<
        SkinAnimatedLimbDataView,
        Error,
    > {
        match Reader::spec_read(segments, addr) {
            Err(e) => Err(e),
            Ok(header) => match Reader::spec_read_slice(
                segments,
                header.limb_modifications,
                header.limb_modif_count as nat,
            ) {
                Err(e) => Err(e),
                Ok(raws) => match spec_collect(spec_modif_results(segments, raws)) {
                    Err(e) => Err(e),
                    Ok(limb_modifications) => Ok(
                        SkinAnimatedLimbDataView {
                            total_vtx_count: header.total_vtx_count,
                            limb_modifications,
                            dlist: header.dlist,
                        },
                    ),
                },
            },
        }
    }

    /// Reads the data of an animated limb at `addr`.
    pub fn read(reader: &Reader, addr: VirtAddr<rom::SkinAnimatedLimbData>) -> (r: Result<
        SkinAnimatedLimbData,
        Error,
    >)
        ensures
            match r {
                Ok(data) => Self::spec_read(reader@, addr) == Ok::<SkinAnimatedLimbDataView, Error>(
                    data@,
                ),
                Err(e) => Self::spec_read(reader@, addr) == Err::<SkinAnimatedLimbDataView, Error>(
                    e,
                ),
            },
    {
        let header = reader.read(addr)?;
        let raws = reader.read_slice(header.limb_modifications, header.limb_modif_count as usize)?;
        let ghost results = spec_modif_results(reader@, raws@);
        let mut limb_modifications: Vec<SkinLimbModif> = Vec::new();
        let mut i: usize = 0;
        while i < raws.len()
            invariant
                i <= raws@.len(),
                results == spec_modif_results(reader@, raws@),
                Reader::spec_read(reader@, addr) == Ok::<rom::SkinAnimatedLimbData, Error>(header),
                Reader::spec_read_slice(
                    reader@,
                    header.limb_modifications,
                    header.limb_modif_count as nat,
                ) == Ok::<Seq<rom::SkinLimbModif>, Error>(raws@),
                limb_modifications@.len() == i,
                forall|j: int|
                    0 <= j < i ==> #[trigger] results[j] == Ok::<SkinLimbModifView, Error>(
                        limb_modifications@[j]@,
                    ),
            decreases raws@.len() - i,
        {
            match SkinLimbModif::read(reader, &raws[i]) {
                Ok(modif) => {
                    limb_modifications.push(modif);
                },
                Err(e) => {
                    proof {
                        lemma_collect_err(results, i as int, e);
                    }
                    return Err(e);
                },
            }
            i += 1;
        }
        proof {
            lemma_collect_ok(results, spec_modif_views(limb_modifications@));
        }
        Ok(
            SkinAnimatedLimbData {
                total_vtx_count: header.total_vtx_count,
                limb_modifications,
                dlist: header.dlist,
            },
        )
    }

    /// Whether every vertex that a modification names lies inside the
    /// buffer of `total_vtx_count` vertices.
    pub fn vertices_in_range(&self) -> (r: bool)
        ensures
            r == spec_vertices_in_range(self@.limb_modifications, self.total_vtx_count as nat),
    {
        vertices_in_range(&self.limb_modifications, self.total_vtx_count as usize)
    }
}

/// Whether every vertex that one of `modifs` names lies inside a buffer of
/// `len` vertices.
pub fn vertices_in_range(modifs: &Vec<SkinLimbModif>, len: usize) -> (r: bool)
    ensures
        r == spec_vertices_in_range(spec_modif_views(modifs@), len as nat),
{
    let ghost views = spec_modif_views(modifs@);
    let mut m: usize = 0;
    while m < modifs.len()
        invariant
            m <= modifs@.len(),
            views == spec_modif_views(modifs@),
            spec_vertices_in_range(views.take(m as int), len as nat),
        decreases modifs@.len() - m,
    {
        let modif = &modifs[m];
        assert(modif@ == views[m as int]);
        let mut k: usize = 0;
        while k < modif.skin_vertices.len()
            invariant
                k <= modif.skin_vertices@.len(),
                m < views.len(),
                views == spec_modif_views(modifs@),
                modif@ == views[m as int],
                forall|j: int| 0 <= j < k ==> (#[trigger] modif.skin_vertices@[j]).index < len,
            decreases modif.skin_vertices@.len() - k,
        {
            if modif.skin_vertices[k].index as usize >= len {
                assert(views[m as int].skin_vertices[k as int].index >= len);
                return false;
            }
            k += 1;
        }
        assert forall|a: int, b: int|
            0 <= a < views.take(m as int + 1).len() && 0 <= b < views.take(
                m as int + 1,
            )[a].skin_vertices.len() implies (#[trigger] views.take(
            m as int + 1,
        )[a].skin_vertices[b]).index < len by {
            if a < m {
                assert(views.take(m as int)[a].skin_vertices[b].index < len);
            }
        }
        m += 1;
    }
    assert(views.take(m as int) =~= views);
    true
}

/// What the payload of a limb is.
#[derive(Debug, PartialEq)]
pub enum SkinLimbType {
    /// The limb draws a display list from a vertex buffer that its
    /// modifications fill.
    Animated(SkinAnimatedLimbData),
    /// The limb draws the display list at this address.
    Normal(RawVirtAddr),
}

/// What the payload of a limb holds.
pub enum SkinLimbTypeView {
    Animated(SkinAnimatedLimbDataView),
    Normal(RawVirtAddr),
}

impl View for SkinLimbType {
    type V = SkinLimbTypeView;

    open spec fn view(&self) -> SkinLimbTypeView {
        match self {
            SkinLimbType::Animated(data) => SkinLimbTypeView::Animated(data@),
            SkinLimbType::Normal(dlist) => SkinLimbTypeView::Normal(*dlist),
        }
    }
}

/// A limb with its payload read in. A limb without a payload is a joint and
/// no more.
#[derive(Debug, PartialEq)]
pub struct SkinLimb {
    pub joint_pos: [i16; 3],
    pub child: u8,
    pub sibling: u8,
    pub segment_type: i32,
    pub skin_limb_type: Option<SkinLimbType>,
}

/// What a limb holds.
pub struct SkinLimbView {
    pub joint_pos: [i16; 3],
    pub child: u8,
    pub sibling: u8,
    pub segment_type: i32,
    pub skin_limb_type: Option<SkinLimbTypeView>,
}

impl View for SkinLimb {
    type V = SkinLimbView;

    open spec fn view(&self) -> SkinLimbView {
        SkinLimbView {
            joint_pos: self.joint_pos,
            child: self.child,
            sibling: self.sibling,
            segment_type: self.segment_type,
            skin_limb_type: match self.skin_limb_type {
                Some(t) => Some(t@),
                None => None,
            },
        }
    }
}

/// What each of `limbs` holds.
pub open spec fn spec_limb_views(limbs: Seq<SkinLimb>) -> Seq<SkinLimbView> {
    limbs.map_values(|limb: SkinLimb| limb@)
}

impl SkinLimb {
    /// The payload of `raw`. A limb whose address is null has none, and
    /// neither has a limb whose type is neither animated nor normal.
    pub open spec fn spec_payload(segments: Segments, raw: rom::SkinLimb) -> Result<
        Option<SkinLimbTypeView>,
        Error,
    > {
        if raw.segment.0 == 0 {
            Ok(None)
        } else {
            match rom::SkinLimbType::spec_from_i32(raw.segment_type) {
                Some(rom::SkinLimbType::Animated) => match SkinAnimatedLimbData::spec_read(
                    segments,
                    VirtAddr(raw.segment, std::marker::PhantomData),
                ) {
                    Err(e) => Err(e),
                    Ok(data) => Ok(Some(SkinLimbTypeView::Animated(data))),
                },
                Some(rom::SkinLimbType::Normal) => Ok(Some(SkinLimbTypeView::Normal(raw.segment))),
                None => Ok(None),
            }
        }
    }

    /// The limb that `raw` describes, with its payload read in.
    pub open spec fn spec_read(segments: Segments, raw: rom::SkinLimb) -> Result<SkinLimbView, Error> {
        match Self::spec_payload(segments, raw) {
            Err(e) => Err(e),
            Ok(skin_limb_type) => Ok(
                SkinLimbView {
                    joint_pos: raw.joint_pos,
                    child: raw.child,
                    sibling: raw.sibling,
                    segment_type: raw.segment_type,
                    skin_limb_type,
                },
            ),
        }
    }

    /// Reads in what `raw` points at.
    pub fn read(reader: &Reader, raw: &rom::SkinLimb) -> (r: Result<SkinLimb, Error>)
        ensures
            match r {
                Ok(limb) => Self::spec_read(reader@, *raw) == Ok::<SkinLimbView, Error>(limb@),
                Err(e) => Self::spec_read(reader@, *raw) == Err::<SkinLimbView, Error>(e),
            },
    {
        let skin_limb_type = if raw.segment.0 == 0 {
            None
        } else {
            match rom::SkinLimbType::from_i32(raw.segment_type) {
                Some(rom::SkinLimbType::Animated) => {
                    let data = SkinAnimatedLimbData::read(
                        reader,
                        VirtAddr(raw.segment, std::marker::PhantomData),
                    )?;
                    Some(SkinLimbType::Animated(data))
                },
                Some(rom::SkinLimbType::Normal) => Some(SkinLimbType::Normal(raw.segment)),
                None => None,
            }
        };
        Ok(
            SkinLimb {
                joint_pos: raw.joint_pos,
                child: raw.child,
                sibling: raw.sibling,
                segment_type: raw.segment_type,
                skin_limb_type,
            },
        )
    }
}

/// A skeleton with the animations that were read for it.
#[derive(Debug, PartialEq)]
pub struct Skin {
    pub skeleton_header: SkeletonHeader,
    pub animations: Vec<SkeletonAnimation>,
}

/// The frames of the animation at `addr`, for a skeleton of `limb_count`
/// limbs.
pub open spec fn spec_animation(
    segments: Segments,
    addr: VirtAddr<rom::AnimationHeader>,
    limb_count: nat,
) -> Result<Seq<Seq<[i16; 3]>>, Error> {
    match Reader::spec_read(segments, addr) {
        Err(e) => Err(e),
        Ok(header) => spec_frames(segments, header, limb_count),
    }
}

impl Skin {
    /// Reads the skeleton at `addr`. It has no animation yet.
    pub fn read(r: &Reader, addr: VirtAddr<rom::SkeletonHeader>) -> (result: Result<Self, Error>)
        ensures
            match result {
                Ok(skin) => SkeletonHeader::spec_read(r@, addr) == Ok::<Seq<SkinLimbView>, Error>(
                    skin.skeleton_header@,
                ) && skin.animations@.len() == 0,
                Err(e) => SkeletonHeader::spec_read(r@, addr) == Err::<Seq<SkinLimbView>, Error>(
                    e,
                ),
            },
    {
        let skeleton_header = SkeletonHeader::read(r, addr)?;
        Ok(Skin { skeleton_header, animations: Vec::new() })
    }

    /// Reads the animation at `addr` and adds it under `name` behind those
    /// that are there. Where it cannot be read, nothing is added.
    pub fn read_animation(&mut self, name: String, r: &Reader, addr: VirtAddr<rom::AnimationHeader>)
        -> (result: Result<(), Error>)
        ensures
            final(self).skeleton_header == old(self).skeleton_header,
            match result {
                Ok(_) => final(self).animations@.len() == old(self).animations@.len() + 1
                    && final(self).animations@.drop_last() == old(self).animations@
                    && final(self).animations@.last().name == name && spec_animation(
                    r@,
                    addr,
                    old(self).skeleton_header.limbs@.len(),
                ) == Ok::<Seq<Seq<[i16; 3]>>, Error>(
                    spec_frame_views(final(self).animations@.last().frames@),
                ),
                Err(e) => final(self).animations@ == old(self).animations@ && spec_animation(
                    r@,
                    addr,
                    old(self).skeleton_header.limbs@.len(),
                ) == Err::<Seq<Seq<[i16; 3]>>, Error>(e),
            },
    {
        let animation_header = r.read(addr)?;
        let animation = SkeletonAnimation::create_from_header(
            name,
            r,
            &self.skeleton_header,
            &animation_header,
        )?;
        self.animations.push(animation);
        assert(self.animations@.drop_last() =~= old(self).animations@);
        Ok(())
    }
}

/// Whether a modification moves the vertex `i` of the buffer: it names the
/// vertex, and it is not left out for having a single transformation.
pub open spec fn spec_writes(modif: SkinLimbModifView, skip_single: bool, i: int) -> bool {
    &&& !(skip_single && modif.limb_transformations.len() == 1)
    &&& exists|k: int|
        0 <= k < modif.skin_vertices.len() && (#[trigger] modif.skin_vertices[k]).index == i
}

/// The vertex `v` with its position set to `point`.
pub open spec fn spec_moved(v: Vtx, point: [i16; 3]) -> Vtx {
    Vtx { pos: point, ..v }
}

/// The vertex `i` of the buffer after the modifications `modifs`, where it
/// held `start` before: its position is the point of the last modification
/// that moves it, and nothing else of it changes.
pub open spec fn spec_deformed(
    start: Vtx,
    modifs: Seq<SkinLimbModifView>,
    points: Seq<[i16; 3]>,
    skip_single: bool,
    i: int,
) -> Vtx
    decreases modifs.len(),
{
    if modifs.len() == 0 {
        start
    } else if spec_writes(modifs.last(), skip_single, i) {
        spec_moved(start, points[modifs.len() - 1])
    } else {
        spec_deformed(start, modifs.drop_last(), points, skip_single, i)
    }
}

/// The buffer after the modifications `modifs`, where it held `start` before.
pub open spec fn spec_deformed_buffer(
    start: Seq<Vtx>,
    modifs: Seq<SkinLimbModifView>,
    points: Seq<[i16; 3]>,
    skip_single: bool,
) -> Seq<Vtx> {
    Seq::new(start.len(), |i: int| spec_deformed(start[i], modifs, points, skip_single, i))
}

/// Applies the modifications to the buffer, in order: each modification
/// writes its point over the position of every vertex that it names.
///
/// `points` holds one point for each modification. With `skip_single`, a
/// modification that has exactly one transformation writes nothing.
pub fn apply_limb_modifications(
    buffer: &mut Vec<Vtx>,
    modifs: &Vec<SkinLimbModif>,
    points: &Vec<[i16; 3]>,
    skip_single: bool,
)
    requires
        points@.len() == modifs@.len(),
        spec_vertices_in_range(spec_modif_views(modifs@), old(buffer)@.len()),
    ensures
        final(buffer)@ == spec_deformed_buffer(
            old(buffer)@,
            spec_modif_views(modifs@),
            points@,
            skip_single,
        ),
{
    let ghost start = buffer@;
    let ghost views = spec_modif_views(modifs@);
    let mut m: usize = 0;
    while m < modifs.len()
        invariant
            m <= modifs@.len(),
            views == spec_modif_views(modifs@),
            points@.len() == modifs@.len(),
            spec_vertices_in_range(views, start.len()),
            buffer@ == spec_deformed_buffer(start, views.take(m as int), points@, skip_single),
        decreases modifs@.len() - m,
    {
        let modif = &modifs[m];
        let point = points[m];
        let ghost before = buffer@;
        let ghost done = views.take(m as int);
        let ghost next = views.take(m as int + 1);
        assert(next.drop_last() =~= done);
        assert(next.last() == modif@);
        if !(skip_single && modif.limb_transformations.len() == 1) {
            let mut k: usize = 0;
            while k < modif.skin_vertices.len()
                invariant
                    k <= modif.skin_vertices@.len(),
                    m < modifs@.len(),
                    views == spec_modif_views(modifs@),
                    modif@ == views[m as int],
                    spec_vertices_in_range(views, start.len()),
                    buffer@.len() == start.len(),
                    before.len() == start.len(),
                    forall|i: int|
                        0 <= i < start.len() ==> #[trigger] buffer@[i] == (if exists|j: int|
                            0 <= j < k && (#[trigger] modif.skin_vertices@[j]).index == i {
                            spec_moved(before[i], point)
                        } else {
                            before[i]
                        }),
                decreases modif.skin_vertices@.len() - k,
            {
                let index = modif.skin_vertices[k].index as usize;
                assert(views[m as int].skin_vertices[k as int].index < start.len());
                let ghost held = buffer@;
                let old_vtx = buffer[index];
                buffer.set(
                    index,
                    Vtx { pos: point, flag: old_vtx.flag, tpos: old_vtx.tpos, cn: old_vtx.cn },
                );
                assert forall|i: int| 0 <= i < start.len() implies #[trigger] buffer@[i] == (
                if exists|j: int|
                    0 <= j < k + 1 && (#[trigger] modif.skin_vertices@[j]).index == i {
                    spec_moved(before[i], point)
                } else {
                    before[i]
                }) by {
                    if i == index {
                        assert(modif.skin_vertices@[k as int].index == i);
                    } else {
                        assert(buffer@[i] == held[i]);
                        if exists|j: int|
                            0 <= j < k + 1 && (#[trigger] modif.skin_vertices@[j]).index == i {
                            let j = choose|j: int|
                                0 <= j < k + 1 && (#[trigger] modif.skin_vertices@[j]).index == i;
                            assert(j < k);
                        }
                    }
                }
                k += 1;
            }
        }
        assert(buffer@ =~= spec_deformed_buffer(start, next, points@, skip_single)) by {
            assert forall|i: int| 0 <= i < start.len() implies buffer@[i] == spec_deformed(
                start[i],
                next,
                points@,
                skip_single,
                i,
            ) by {
                assert(before[i] == spec_deformed(start[i], done, points@, skip_single, i));
                lemma_deformed_position(start[i], start[i], done, points@, skip_single, i);
                if spec_writes(modif@, skip_single, i) {
                    let j = choose|j: int|
                        0 <= j < modif@.skin_vertices.len() && (
                        #[trigger] modif@.skin_vertices[j]).index == i;
                    assert(modif.skin_vertices@[j].index == i);
                }
            }
        }
        m += 1;
    }
    assert(views.take(m as int) =~= views);
}

/// Applying the same modifications a second time changes nothing: a vertex
/// that a modification moves gets the same point again, and every other
/// vertex stays as it is.
pub proof fn lemma_deformation_idempotent(
    start: Seq<Vtx>,
    modifs: Seq<SkinLimbModifView>,
    points: Seq<[i16; 3]>,
    skip_single: bool,
)
    ensures
        spec_deformed_buffer(
            spec_deformed_buffer(start, modifs, points, skip_single),
            modifs,
            points,
            skip_single,
        ) == spec_deformed_buffer(start, modifs, points, skip_single),
{
    let once = spec_deformed_buffer(start, modifs, points, skip_single);
    let twice = spec_deformed_buffer(once, modifs, points, skip_single);
    assert forall|i: int| 0 <= i < start.len() implies twice[i] == once[i] by {
        lemma_deformed_position(once[i], start[i], modifs, points, skip_single, i);
    }
    assert(twice =~= once);
}

/// The position that the modifications give a vertex does not depend on
/// what the vertex held before, and nothing else of the vertex changes: a
/// vertex that no modification moves stays as it is.
pub proof fn lemma_deformed_position(
    first: Vtx,
    second: Vtx,
    modifs: Seq<SkinLimbModifView>,
    points: Seq<[i16; 3]>,
    skip_single: bool,
    i: int,
)
    ensures
        spec_deformed(first, modifs, points, skip_single, i) == spec_moved(
            first,
            spec_deformed(first, modifs, points, skip_single, i).pos,
        ),
        spec_deformed(first, modifs, points, skip_single, i).pos == spec_deformed(
            second,
            modifs,
            points,
            skip_single,
            i,
        ).pos || (spec_deformed(first, modifs, points, skip_single, i) == first && spec_deformed(
            second,
            modifs,
            points,
            skip_single,
            i,
        ) == second),
    decreases modifs.len(),
{
    if modifs.len() > 0 && !spec_writes(modifs.last(), skip_single, i) {
        lemma_deformed_position(first, second, modifs.drop_last(), points, skip_single, i);
    }
}

} // verus!
