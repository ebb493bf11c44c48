//! The meshes of the limbs of a skeleton, and the tree that the limbs form.

use crate::addr::RawVirtAddr;
use crate::dlist::{dlist_to_gltf, spec_dlist};
use crate::error::Error;
use crate::mesh::{Mesh, MeshView};
use crate::rom;
use crate::rom::{ReadSegment, Reader, Segment, Segments, Vtx};
use crate::skin::{
    apply_limb_modifications, spec_deformed_buffer, spec_limb_views, spec_vertices_in_range,
    SkinAnimatedLimbData, SkinAnimatedLimbDataView, SkinLimb, SkinLimbType, SkinLimbTypeView,
    SkinLimbView,
};
use vstd::prelude::*;

verus! {

/// Runs the display list that a normal limb points at.
pub fn read_normal_skin_limb(reader: &Reader, limb: &rom::SkinLimb) -> (r: Result<Mesh, Error>)
    ensures
        match r {
            Ok(mesh) => spec_dlist(reader@, limb.segment) == Ok::<MeshView, Error>(mesh@),
            Err(e) => spec_dlist(reader@, limb.segment) == Err::<MeshView, Error>(e),
        },
{
    dlist_to_gltf(reader, limb.segment)
}

/// The vertex buffer of an animated limb: `total_vtx_count` cleared
/// vertices, with the modifications of the limb applied in order.
pub open spec fn spec_skin_buffer(
    data: SkinAnimatedLimbDataView,
    points: Seq<[i16; 3]>,
    skip_single: bool,
) -> Seq<Vtx> {
    spec_deformed_buffer(
        Seq::new(data.total_vtx_count as nat, |i: int| Vtx::spec_zero()),
        data.limb_modifications,
        points,
        skip_single,
    )
}

/// The bytes of a vertex buffer: those of each vertex, one after the other.
pub open spec fn spec_buffer_bytes(buffer: Seq<Vtx>) -> Seq<u8>
    decreases buffer.len(),
{
    if buffer.len() == 0 {
        Seq::empty()
    } else {
        spec_buffer_bytes(buffer.drop_last()) + buffer.last().spec_bytes()
    }
}

/// A buffer takes 16 bytes for each vertex.
pub proof fn lemma_buffer_bytes_len(buffer: Seq<Vtx>)
    ensures
        spec_buffer_bytes(buffer).len() == 16 * buffer.len(),
    decreases buffer.len(),
{
    if buffer.len() > 0 {
        lemma_buffer_bytes_len(buffer.drop_last());
    }
}

/// The vertex `k` of a buffer reads back from the bytes of the buffer at 16
/// times `k`.
pub proof fn lemma_buffer_vertex_reads_back(buffer: Seq<Vtx>, k: int)
    requires
        0 <= k < buffer.len(),
    ensures
        spec_buffer_bytes(buffer).len() == 16 * buffer.len(),
        Vtx::spec_read(spec_buffer_bytes(buffer).skip(16 * k)) == buffer[k],
    decreases buffer.len(),
{
    lemma_buffer_bytes_len(buffer);
    lemma_buffer_bytes_len(buffer.drop_last());
    let front = spec_buffer_bytes(buffer.drop_last());
    let last = buffer.last().spec_bytes();
    if k == buffer.len() - 1 {
        assert(spec_buffer_bytes(buffer).skip(16 * k) =~= last + Seq::<u8>::empty());
        rom::lemma_vtx_round_trip(buffer.last(), Seq::empty());
    } else {
        lemma_buffer_vertex_reads_back(buffer.drop_last(), k);
        let x = front.skip(16 * k);
        assert(spec_buffer_bytes(buffer).skip(16 * k) =~= x + last);
        let r = Vtx::spec_read(x + last);
        let v = Vtx::spec_read(x);
        assert(r.pos =~= v.pos);
        assert(r.tpos =~= v.tpos);
        assert(r.cn =~= v.cn);
    }
}

/// A display list reads the vertex buffer of an animated limb as it reads
/// any other vertices: where a segment holds the bytes of `buffer`, the
/// `count` vertices at 16 times `first` in it are those of the buffer from
/// `first` on.
pub proof fn lemma_buffer_reads_back(
    segments: Segments,
    buffer: Seq<Vtx>,
    addr: crate::addr::VirtAddr<Vtx>,
    first: int,
    count: nat,
)
    requires
        segments[addr.0.spec_segment_number() as int] == Some(spec_buffer_bytes(buffer)),
        addr.0.spec_segment_offset() == 16 * first,
        0 <= first < buffer.len(),
        first + count <= buffer.len(),
    ensures
        Reader::spec_read_slice(segments, addr, count) == Ok::<Seq<Vtx>, Error>(
            buffer.subrange(first, first + count),
        ),
{
    lemma_buffer_bytes_len(buffer);
    let bytes = spec_buffer_bytes(buffer);
    let s = bytes.skip(16 * first);
    let read = Seq::new(count, |i: int| Vtx::spec_read(s.skip(i * 16)));
    assert forall|i: int| 0 <= i < count implies #[trigger] read[i] == buffer.subrange(
        first,
        first + count,
    )[i] by {
        lemma_buffer_vertex_reads_back(buffer, first + i);
        assert(s.skip(i * 16) =~= bytes.skip(16 * (first + i)));
    }
    assert(read =~= buffer.subrange(first, first + count));
}

/// Builds the vertex buffer of an animated limb.
///
/// `points` holds, for each modification of the limb, the point that its
/// transformations add up to. With `skip_single`, a modification that has
/// exactly one transformation moves no vertex.
pub fn skin_vertex_buffer(data: &SkinAnimatedLimbData, points: &Vec<[i16; 3]>, skip_single: bool)
    -> (buffer: Vec<Vtx>)
    requires
        points@.len() == data.limb_modifications@.len(),
        spec_vertices_in_range(data@.limb_modifications, data.total_vtx_count as nat),
    ensures
        buffer@ == spec_skin_buffer(data@, points@, skip_single),
{
    let mut buffer: Vec<Vtx> = Vec::new();
    let mut i: u16 = 0;
    while i < data.total_vtx_count
        invariant
            i <= data.total_vtx_count,
            buffer@.len() == i,
            forall|j: int| 0 <= j < i ==> #[trigger] buffer@[j] == Vtx::spec_zero(),
        decreases data.total_vtx_count - i,
    {
        buffer.push(Vtx::zero());
        i += 1;
    }
    assert(buffer@ =~= Seq::new(data.total_vtx_count as nat, |i: int| Vtx::spec_zero()));
    apply_limb_modifications(&mut buffer, &data.limb_modifications, points, skip_single);
    buffer
}

/// Writes the vertices of a buffer one after the other.
pub fn vertex_buffer_bytes(buffer: &Vec<Vtx>) -> (bytes: Vec<u8>)
    ensures
        bytes@ == spec_buffer_bytes(buffer@),
{
    let mut bytes: Vec<u8> = Vec::new();
    let mut i: usize = 0;
    while i < buffer.len()
        invariant
            i <= buffer@.len(),
            bytes@ == spec_buffer_bytes(buffer@.take(i as int)),
        decreases buffer@.len() - i,
    {
        assert(buffer@.take(i as int + 1).drop_last() =~= buffer@.take(i as int));
        buffer[i].write(&mut bytes);
        i += 1;
    }
    assert(buffer@.take(i as int) =~= buffer@);
    bytes
}

/// Builds the mesh of an animated limb: its vertex buffer is installed as
/// the buffer of `segment`, in place of what that segment held, and the
/// display list of the limb is run against it. The display lists of the game
/// look for the buffer in `IconItemStatic`.
pub fn read_animated_skin_limb(
    reader: &mut Reader,
    segment: Segment,
    data: &SkinAnimatedLimbData,
    points: &Vec<[i16; 3]>,
    skip_single: bool,
) -> (r: Result<Mesh, Error>)
    requires
        points@.len() == data.limb_modifications@.len(),
        spec_vertices_in_range(data@.limb_modifications, data.total_vtx_count as nat),
    ensures
        final(reader)@ == old(reader)@.update(
            segment.spec_number() as int,
            Some(spec_buffer_bytes(spec_skin_buffer(data@, points@, skip_single))),
        ),
        match r {
            Ok(mesh) => spec_dlist(final(reader)@, data.dlist) == Ok::<MeshView, Error>(mesh@),
            Err(e) => spec_dlist(final(reader)@, data.dlist) == Err::<MeshView, Error>(e),
        },
{
    let buffer = skin_vertex_buffer(data, points, skip_single);
    let bytes = vertex_buffer_bytes(&buffer);
    proof {
        lemma_buffer_bytes_len(buffer@);
    }
    reader.set_segment(segment, Some(bytes));
    dlist_to_gltf(reader, data.dlist)
}

/// What reading the mesh of a limb does: the segment table after it, and the
/// mesh or the failure.
///
/// A limb without a payload has no mesh. A normal limb has the mesh of its
/// display list. For an animated limb the vertex buffer that its
/// modifications fill, with `points` as the point of each modification, is
/// installed as the buffer of `segment`, and its display list is run against
/// that table. Only an animated limb changes the table.
#[verifier::opaque]
pub open spec fn spec_limb_step(
    segments: Segments,
    segment: Segment,
    limb: SkinLimbView,
    points: Seq<[i16; 3]>,
    skip_single: bool,
) -> (Segments, Result<Option<MeshView>, Error>) {
    match limb.skin_limb_type {
        None => (segments, Ok(None)),
        Some(SkinLimbTypeView::Normal(dlist)) => (
            segments,
            match spec_dlist(segments, dlist) {
                Ok(mesh) => Ok(Some(mesh)),
                Err(e) => Err(e),
            },
        ),
        Some(SkinLimbTypeView::Animated(data)) => {
            let installed = segments.update(
                segment.spec_number() as int,
                Some(spec_buffer_bytes(spec_skin_buffer(data, points, skip_single))),
            );
            (
                installed,
                match spec_dlist(installed, data.dlist) {
                    Ok(mesh) => Ok(Some(mesh)),
                    Err(e) => Err(e),
                },
            )
        },
    }
}

/// Whether `points` holds a point for each modification of the limb, and
/// every vertex that a modification names lies inside the limb's buffer.
/// A limb that is not animated needs no points.
pub open spec fn spec_points_fit(limb: SkinLimbView, points: Seq<[i16; 3]>) -> bool {
    limb.skin_limb_type matches Some(SkinLimbTypeView::Animated(data)) ==> points.len()
        == data.limb_modifications.len() && spec_vertices_in_range(
        data.limb_modifications,
        data.total_vtx_count as nat,
    )
}

/// Tests whether `points` fit the limb.
pub fn points_fit(limb: &SkinLimb, points: &Vec<[i16; 3]>) -> (r: bool)
    ensures
        r == spec_points_fit(limb@, points@),
{
    match &limb.skin_limb_type {
        Some(SkinLimbType::Animated(data)) => points.len() == data.limb_modifications.len()
            && data.vertices_in_range(),
        _ => true,
    }
}

/// Reads the mesh of a limb, as `spec_limb_step` says.
pub fn read_skin_limb(
    reader: &mut Reader,
    segment: Segment,
    limb: &SkinLimb,
    points: &Vec<[i16; 3]>,
    skip_single: bool,
) -> (r: Result<Option<Mesh>, Error>)
    requires
        spec_points_fit(limb@, points@),
    ensures
        final(reader)@ == spec_limb_step(old(reader)@, segment, limb@, points@, skip_single).0,
        spec_mesh_result(r) == spec_limb_step(old(reader)@, segment, limb@, points@, skip_single).1,
{
    reveal(spec_limb_step);
    match &limb.skin_limb_type {
        None => Ok(None),
        Some(SkinLimbType::Normal(dlist)) => {
            let mesh = dlist_to_gltf(reader, *dlist)?;
            Ok(Some(mesh))
        },
        Some(SkinLimbType::Animated(data)) => {
            let mesh = read_animated_skin_limb(reader, segment, data, points, skip_single)?;
            Ok(Some(mesh))
        },
    }
}

/// What the mesh of a limb, or the failure to read it, holds.
pub open spec fn spec_mesh_result(r: Result<Option<Mesh>, Error>) -> Result<
    Option<MeshView>,
    Error,
> {
    match r {
        Ok(Some(mesh)) => Ok(Some(mesh@)),
        Ok(None) => Ok(None),
        Err(e) => Err(e),
    }
}

/// What each of `meshes` holds.
pub open spec fn spec_mesh_views(meshes: Seq<Option<Mesh>>) -> Seq<Option<MeshView>> {
    meshes.map_values(
        |mesh: Option<Mesh>|
            match mesh {
                Some(mesh) => Some(mesh@),
                None => None,
            },
    )
}

/// The points of each limb.
pub open spec fn spec_point_views(points: Seq<Vec<[i16; 3]>>) -> Seq<Seq<[i16; 3]>> {
    points.map_values(|p: Vec<[i16; 3]>| p@)
}

/// What reading the meshes of the first `n` limbs does, one limb after the
/// other: the segment table after it, and the mesh of each limb, or the first
/// failure. A failure stops the reading: the limbs behind it are not read.
pub open spec fn spec_limb_meshes(
    segments: Segments,
    segment: Segment,
    limbs: Seq<SkinLimbView>,
    points: Seq<Seq<[i16; 3]>>,
    skip_single: bool,
    n: nat,
) -> (Segments, Result<Seq<Option<MeshView>>, Error>)
    decreases n,
{
    if n == 0 {
        (segments, Ok(Seq::empty()))
    } else {
        let before = spec_limb_meshes(segments, segment, limbs, points, skip_single, (n - 1) as nat);
        match before.1 {
            Err(e) => before,
            Ok(meshes) => {
                let step = spec_limb_step(
                    before.0,
                    segment,
                    limbs[n - 1],
                    points[n - 1],
                    skip_single,
                );
                match step.1 {
                    Err(e) => (step.0, Err(e)),
                    Ok(mesh) => (step.0, Ok(meshes.push(mesh))),
                }
            },
        }
    }
}

/// Once a limb has failed, no later limb is read.
pub proof fn lemma_limb_failure_stops(
    segments: Segments,
    segment: Segment,
    limbs: Seq<SkinLimbView>,
    points: Seq<Seq<[i16; 3]>>,
    skip_single: bool,
    k: nat,
    n: nat,
)
    requires
        k <= n,
        spec_limb_meshes(segments, segment, limbs, points, skip_single, k).1 is Err,
    ensures
        spec_limb_meshes(segments, segment, limbs, points, skip_single, n) == spec_limb_meshes(
            segments,
            segment,
            limbs,
            points,
            skip_single,
            k,
        ),
    decreases n,
{
    if k < n {
        lemma_limb_failure_stops(segments, segment, limbs, points, skip_single, k, (n - 1) as nat);
    }
}

/// Reads the mesh of every limb of a skeleton, in the order of the limbs.
///
/// `points` holds, for each limb, the point of each of its modifications; a
/// limb that is not animated needs none. The vertex buffer of each animated
/// limb is installed as the buffer of `segment` in its turn, so a later limb
/// finds there what the last animated limb before it left.
pub fn read_skin_limbs(
    reader: &mut Reader,
    segment: Segment,
    limbs: &Vec<SkinLimb>,
    points: &Vec<Vec<[i16; 3]>>,
    skip_single: bool,
) -> (r: Result<Vec<Option<Mesh>>, Error>)
    requires
        points@.len() == limbs@.len(),
        forall|i: int|
            0 <= i < limbs@.len() ==> spec_points_fit(#[trigger] limbs@[i]@, points@[i]@),
    ensures
        final(reader)@ == spec_limb_meshes(
            old(reader)@,
            segment,
            spec_limb_views(limbs@),
            spec_point_views(points@),
            skip_single,
            limbs@.len(),
        ).0,
        match r {
            Ok(meshes) => spec_limb_meshes(
                old(reader)@,
                segment,
                spec_limb_views(limbs@),
                spec_point_views(points@),
                skip_single,
                limbs@.len(),
            ).1 == Ok::<Seq<Option<MeshView>>, Error>(spec_mesh_views(meshes@)),
            Err(e) => spec_limb_meshes(
                old(reader)@,
                segment,
                spec_limb_views(limbs@),
                spec_point_views(points@),
                skip_single,
                limbs@.len(),
            ).1 == Err::<Seq<Option<MeshView>>, Error>(e),
        },
{
    let ghost start = reader@;
    let ghost views = spec_limb_views(limbs@);
    let ghost point_views = spec_point_views(points@);
    let mut meshes: Vec<Option<Mesh>> = Vec::new();
    let mut i: usize = 0;
    assert(spec_mesh_views(meshes@) =~= Seq::empty());
    while i < limbs.len()
        invariant
            i <= limbs@.len(),
            start == old(reader)@,
            points@.len() == limbs@.len(),
            views == spec_limb_views(limbs@),
            point_views == spec_point_views(points@),
            forall|j: int|
                0 <= j < limbs@.len() ==> spec_points_fit(#[trigger] limbs@[j]@, points@[j]@),
            spec_limb_meshes(start, segment, views, point_views, skip_single, i as nat) == (
                reader@,
                Ok::<Seq<Option<MeshView>>, Error>(spec_mesh_views(meshes@)),
            ),
        decreases limbs@.len() - i,
    {
        let ghost before = spec_mesh_views(meshes@);
        let ghost held = reader@;
        let ghost step = spec_limb_step(
            held,
            segment,
            views[i as int],
            point_views[i as int],
            skip_single,
        );
        assert(views[i as int] == limbs@[i as int]@);
        assert(point_views[i as int] == points@[i as int]@);
        let result = read_skin_limb(reader, segment, &limbs[i], &points[i], skip_single);
        assert(reader@ == step.0 && spec_mesh_result(result) == step.1);
        assert(spec_limb_meshes(start, segment, views, point_views, skip_single, (i + 1) as nat)
            == (match step.1 {
            Err(e) => (step.0, Err::<Seq<Option<MeshView>>, Error>(e)),
            Ok(mesh) => (step.0, Ok::<Seq<Option<MeshView>>, Error>(before.push(mesh))),
        }));
        match result {
            Ok(mesh) => {
                meshes.push(mesh);
                assert(spec_mesh_views(meshes@) =~= before.push(step.1.unwrap()));
            },
            Err(e) => {
                proof {
                    lemma_limb_failure_stops(
                        start,
                        segment,
                        views,
                        point_views,
                        skip_single,
                        (i + 1) as nat,
                        limbs@.len(),
                    );
                }
                return Err(e);
            },
        }
        i += 1;
    }
    Ok(meshes)
}

/// The limbs from `start` on along the sibling links, `start` included, where
/// the chain ends within `fuel` links and stays inside the list; `None`
/// otherwise.
pub open spec fn spec_sibling_chain(limbs: Seq<SkinLimbView>, start: u8, fuel: nat) -> Option<
    Seq<u8>,
>
    decreases fuel,
{
    if start == 0xFF {
        Some(Seq::empty())
    } else if fuel == 0 || start >= limbs.len() {
        None
    } else {
        match spec_sibling_chain(limbs, limbs[start as int].sibling, (fuel - 1) as nat) {
            None => None,
            Some(rest) => Some(seq![start] + rest),
        }
    }
}

/// The children of the limb `i`: its first child, and the siblings of that
/// child. A chain that does not end is longer than the list of limbs.
pub open spec fn spec_children(limbs: Seq<SkinLimbView>, i: int) -> Option<Seq<u8>> {
    spec_sibling_chain(limbs, limbs[i].child, limbs.len())
}

/// The children of every limb, where each limb has a chain of children that
/// ends and stays inside the list.
pub open spec fn spec_node_hierarchy(limbs: Seq<SkinLimbView>) -> Option<Seq<Seq<u8>>> {
    if forall|i: int| 0 <= i < limbs.len() ==> (#[trigger] spec_children(limbs, i)) is Some {
        Some(Seq::new(limbs.len(), |i: int| spec_children(limbs, i).unwrap()))
    } else {
        None
    }
}

/// What each list of `children` holds.
pub open spec fn spec_children_views(children: Seq<Vec<u8>>) -> Seq<Seq<u8>> {
    children.map_values(|c: Vec<u8>| c@)
}

/// Builds the tree of the limbs: for each limb, in order, the list of its
/// children. `None` where a `child` or `sibling` names no limb of the list,
/// or a chain of siblings runs in a circle.
pub fn build_node_hierarchy(limbs: &Vec<SkinLimb>) -> (r: Option<Vec<Vec<u8>>>)
    ensures
        match r {
            Some(children) => spec_node_hierarchy(spec_limb_views(limbs@)) == Some(
                spec_children_views(children@),
            ) && children@.len() == limbs@.len(),
            None => spec_node_hierarchy(spec_limb_views(limbs@)) is None,
        },
{
    let ghost views = spec_limb_views(limbs@);
    let mut children: Vec<Vec<u8>> = Vec::new();
    let mut i: usize = 0;
    while i < limbs.len()
        invariant
            i <= limbs@.len(),
            views == spec_limb_views(limbs@),
            children@.len() == i,
            forall|j: int|
                0 <= j < i ==> #[trigger] spec_children(views, j) == Some(children@[j]@),
        decreases limbs@.len() - i,
    {
        let mut chain: Vec<u8> = Vec::new();
        let mut current: u8 = limbs[i].child;
        let mut fuel: usize = limbs.len();
        assert(views[i as int].child == current);
        while current != 0xFF
            invariant
                i < limbs@.len(),
                views == spec_limb_views(limbs@),
                fuel <= limbs@.len(),
                spec_children(views, i as int) == (match spec_sibling_chain(
                    views,
                    current,
                    fuel as nat,
                ) {
                    None => None,
                    Some(rest) => Some(chain@ + rest),
                }),
            decreases fuel,
        {
            if fuel == 0 || current as usize >= limbs.len() {
                assert(spec_children(views, i as int) is None);
                return None;
            }
            let ghost before = chain@;
            chain.push(current);
            let next = limbs[current as usize].sibling;
            assert(views[current as int].sibling == next);
            proof {
                match spec_sibling_chain(views, next, (fuel - 1) as nat) {
                    None => {},
                    Some(rest) => {
                        assert(before + (seq![current] + rest) =~= chain@ + rest);
                    },
                }
            }
            current = next;
            fuel -= 1;
        }
        assert(chain@ + Seq::<u8>::empty() =~= chain@);
        children.push(chain);
        i += 1;
    }
    assert(spec_children_views(children@) =~= Seq::new(
        views.len(),
        |i: int| spec_children(views, i).unwrap(),
    ));
    Some(children)
}

/// Every limb of a chain of siblings lies inside the list of limbs.
pub proof fn lemma_chain_in_range(limbs: Seq<SkinLimbView>, start: u8, fuel: nat)
    requires
        spec_sibling_chain(limbs, start, fuel) is Some,
    ensures
        forall|k: int|
            0 <= k < spec_sibling_chain(limbs, start, fuel).unwrap().len()
                ==> #[trigger] spec_sibling_chain(limbs, start, fuel).unwrap()[k] < limbs.len(),
    decreases fuel,
{
    if start != 0xFF {
        lemma_chain_in_range(limbs, limbs[start as int].sibling, (fuel - 1) as nat);
    }
}

/// The parent of the limb `child` among the first `upto` limbs: the last of
/// them that has `child` among its children, if there is one.
pub open spec fn spec_parent(hierarchy: Seq<Seq<u8>>, child: int, upto: nat) -> Option<usize>
    decreases upto,
{
    if upto == 0 {
        None
    } else if exists|k: int|
        0 <= k < hierarchy[upto - 1].len() && #[trigger] hierarchy[upto - 1][k] == child {
        Some((upto - 1) as usize)
    } else {
        spec_parent(hierarchy, child, (upto - 1) as nat)
    }
}

/// The parent of every limb, where the limbs form a tree: a limb is the
/// parent of its first child and of the siblings of that child. A limb that
/// no limb has among its children has no parent; the limb 0 is the root.
pub open spec fn spec_node_parents(limbs: Seq<SkinLimbView>) -> Option<Seq<Option<usize>>> {
    match spec_node_hierarchy(limbs) {
        None => None,
        Some(hierarchy) => Some(
            Seq::new(limbs.len(), |child: int| spec_parent(hierarchy, child, limbs.len())),
        ),
    }
}

/// Finds the parent of each limb. `None` where the limbs form no tree, as
/// `build_node_hierarchy` says.
pub fn build_node_parents(limbs: &Vec<SkinLimb>) -> (r: Option<Vec<Option<usize>>>)
    ensures
        match r {
            Some(parents) => spec_node_parents(spec_limb_views(limbs@)) == Some(parents@),
            None => spec_node_parents(spec_limb_views(limbs@)) is None,
        },
{
    let children = match build_node_hierarchy(limbs) {
        Some(children) => children,
        None => {
            return None;
        },
    };
    let ghost views = spec_limb_views(limbs@);
    let ghost hierarchy = spec_children_views(children@);
    assert(hierarchy.len() == limbs@.len());
    assert forall|p: int, k: int|
        0 <= p < hierarchy.len() && 0 <= k < hierarchy[p].len() implies #[trigger] hierarchy[p][k]
        < limbs@.len() by {
        assert(hierarchy[p] == spec_children(views, p).unwrap());
        lemma_chain_in_range(views, views[p].child, views.len());
    }
    let mut parents: Vec<Option<usize>> = Vec::new();
    let mut c: usize = 0;
    while c < limbs.len()
        invariant
            c <= limbs@.len(),
            parents@.len() == c,
            forall|j: int| 0 <= j < c ==> (#[trigger] parents@[j]) is None,
        decreases limbs@.len() - c,
    {
        parents.push(None);
        c += 1;
    }
    let mut p: usize = 0;
    while p < children.len()
        invariant
            p <= children@.len(),
            children@.len() == limbs@.len(),
            hierarchy == spec_children_views(children@),
            forall|a: int, b: int|
                0 <= a < hierarchy.len() && 0 <= b < hierarchy[a].len() ==> #[trigger] hierarchy[a][b]
                    < limbs@.len(),
            parents@.len() == limbs@.len(),
            forall|j: int|
                0 <= j < parents@.len() ==> #[trigger] parents@[j] == spec_parent(
                    hierarchy,
                    j,
                    p as nat,
                ),
        decreases children@.len() - p,
    {
        let chain = &children[p];
        assert(chain@ == hierarchy[p as int]);
        let ghost before = parents@;
        let mut k: usize = 0;
        while k < chain.len()
            invariant
                k <= chain@.len(),
                p < children@.len(),
                chain@ == hierarchy[p as int],
                forall|b: int| 0 <= b < chain@.len() ==> #[trigger] chain@[b] < limbs@.len(),
                parents@.len() == limbs@.len(),
                before.len() == limbs@.len(),
                forall|j: int|
                    0 <= j < parents@.len() ==> #[trigger] parents@[j] == (if exists|b: int|
                        0 <= b < k && #[trigger] chain@[b] == j {
                        Some(p)
                    } else {
                        before[j]
                    }),
            decreases chain@.len() - k,
        {
            let child = chain[k] as usize;
            let ghost held = parents@;
            parents.set(child, Some(p));
            assert forall|j: int| 0 <= j < parents@.len() implies #[trigger] parents@[j] == (
            if exists|b: int| 0 <= b < k + 1 && #[trigger] chain@[b] == j {
                Some(p)
            } else {
                before[j]
            }) by {
                if j == child {
                    assert(chain@[k as int] == j);
                } else {
                    assert(parents@[j] == held[j]);
                    if exists|b: int| 0 <= b < k + 1 && #[trigger] chain@[b] == j {
                        let b = choose|b: int| 0 <= b < k + 1 && #[trigger] chain@[b] == j;
                        assert(b < k);
                    }
                }
            }
            k += 1;
        }
        assert forall|j: int| 0 <= j < parents@.len() implies #[trigger] parents@[j]
            == spec_parent(hierarchy, j, (p + 1) as nat) by {
            if exists|b: int| 0 <= b < hierarchy[p as int].len() && #[trigger] hierarchy[p as int][b]
                == j {
                let b = choose|b: int|
                    0 <= b < hierarchy[p as int].len() && #[trigger] hierarchy[p as int][b] == j;
                assert(chain@[b] == j);
            }
        }
        p += 1;
    }
    assert(parents@ =~= Seq::new(
        limbs@.len(),
        |child: int| spec_parent(hierarchy, child, limbs@.len()),
    ));
    Some(parents)
}

} // verus!
