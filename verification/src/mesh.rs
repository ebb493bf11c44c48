//! The geometry that a display list describes, and the step that each
//! instruction makes on it.

use crate::display_list::{Instruction, Opcode, Tri1, Tri2, Vtx};
use crate::error::Error;
use crate::rom;
use crate::rom::{Reader, Segments};
use vstd::prelude::*;

verus! {

/// A vertex of a mesh: the position that the image stores, not rescaled.
#[derive(Clone, Copy, Debug, PartialEq, Eq)]
pub struct Vertex {
    pub pos: [i16; 3],
}

impl Vertex {
    /// The mesh vertex of a loaded vertex: its position.
    pub open spec fn spec_from(vtx: rom::Vtx) -> Vertex {
        Vertex { pos: vtx.pos }
    }

    /// The mesh vertex of a loaded vertex.
    pub fn from(vtx: &rom::Vtx) -> (r: Vertex)
        ensures
            r == Self::spec_from(*vtx),
    {
        Vertex { pos: vtx.pos }
    }
}

/// Indexed triangles: every three entries of `indices` name the corners of
/// one triangle in `vertices`.
#[derive(Debug, PartialEq, Eq)]
pub struct Mesh {
    pub indices: Vec<u32>,
    pub vertices: Vec<Vertex>,
}

/// What a mesh holds.
pub struct MeshView {
    pub indices: Seq<u32>,
    pub vertices: Seq<Vertex>,
}

impl View for Mesh {
    type V = MeshView;

    open spec fn view(&self) -> MeshView {
        MeshView { indices: self.indices@, vertices: self.vertices@ }
    }
}

impl Default for Mesh {
    fn default() -> (r: Mesh)
        ensures
            r@ == (MeshView { indices: Seq::empty(), vertices: Seq::empty() }),
    {
        Mesh { indices: Vec::new(), vertices: Vec::new() }
    }
}

/// The least of the positions of `vertices` along `axis`.
pub open spec fn spec_is_min(vertices: Seq<Vertex>, axis: int, m: i16) -> bool {
    &&& forall|i: int| 0 <= i < vertices.len() ==> m <= (#[trigger] vertices[i]).pos[axis]
    &&& exists|i: int| 0 <= i < vertices.len() && (#[trigger] vertices[i]).pos[axis] == m
}

/// The greatest of the positions of `vertices` along `axis`.
pub open spec fn spec_is_max(vertices: Seq<Vertex>, axis: int, m: i16) -> bool {
    &&& forall|i: int| 0 <= i < vertices.len() ==> m >= (#[trigger] vertices[i]).pos[axis]
    &&& exists|i: int| 0 <= i < vertices.len() && (#[trigger] vertices[i]).pos[axis] == m
}

impl Mesh {
    /// The corner of the mesh's bounding box with the least coordinates, or
    /// `None` where the mesh has no vertex.
    pub fn min_vertex_pos(&self) -> (r: Option<[i16; 3]>)
        ensures
            r is None <==> self@.vertices.len() == 0,
            r matches Some(m) ==> forall|axis: int|
                0 <= axis < 3 ==> spec_is_min(self@.vertices, axis, #[trigger] m[axis]),
    {
        if self.vertices.len() == 0 {
            return None;
        }
        let mut x: i16 = self.vertices[0].pos[0];
        let mut y: i16 = self.vertices[0].pos[1];
        let mut z: i16 = self.vertices[0].pos[2];
        let mut i: usize = 1;
        assert(self.vertices@.take(1)[0] == self.vertices@[0]);
        while i < self.vertices.len()
            invariant
                1 <= i <= self.vertices@.len(),
                spec_is_min(self.vertices@.take(i as int), 0, x),
                spec_is_min(self.vertices@.take(i as int), 1, y),
                spec_is_min(self.vertices@.take(i as int), 2, z),
            decreases self.vertices@.len() - i,
        {
            let ghost before = self.vertices@.take(i as int);
            let ghost after = self.vertices@.take(i as int + 1);
            let ghost wx = choose|k: int| 0 <= k < before.len() && (#[trigger] before[k]).pos[0] == x;
            let ghost wy = choose|k: int| 0 <= k < before.len() && (#[trigger] before[k]).pos[1] == y;
            let ghost wz = choose|k: int| 0 <= k < before.len() && (#[trigger] before[k]).pos[2] == z;
            assert(after[wx] == before[wx] && after[wy] == before[wy] && after[wz] == before[wz]);
            assert(after[i as int] == self.vertices@[i as int]);
            assert forall|k: int| 0 <= k < after.len() && k != i implies #[trigger] after[k]
                == before[k] by {}
            let p = self.vertices[i].pos;
            if p[0] < x {
                x = p[0];
            }
            if p[1] < y {
                y = p[1];
            }
            if p[2] < z {
                z = p[2];
            }
            i += 1;
        }
        assert(self.vertices@.take(i as int) =~= self.vertices@);
        let m = [x, y, z];
        Some(m)
    }

    /// The corner of the mesh's bounding box with the greatest coordinates,
    /// or `None` where the mesh has no vertex.
    pub fn max_vertex_pos(&self) -> (r: Option<[i16; 3]>)
        ensures
            r is None <==> self@.vertices.len() == 0,
            r matches Some(m) ==> forall|axis: int|
                0 <= axis < 3 ==> spec_is_max(self@.vertices, axis, #[trigger] m[axis]),
    {
        if self.vertices.len() == 0 {
            return None;
        }
        let mut x: i16 = self.vertices[0].pos[0];
        let mut y: i16 = self.vertices[0].pos[1];
        let mut z: i16 = self.vertices[0].pos[2];
        let mut i: usize = 1;
        assert(self.vertices@.take(1)[0] == self.vertices@[0]);
        while i < self.vertices.len()
            invariant
                1 <= i <= self.vertices@.len(),
                spec_is_max(self.vertices@.take(i as int), 0, x),
                spec_is_max(self.vertices@.take(i as int), 1, y),
                spec_is_max(self.vertices@.take(i as int), 2, z),
            decreases self.vertices@.len() - i,
        {
            let ghost before = self.vertices@.take(i as int);
            let ghost after = self.vertices@.take(i as int + 1);
            let ghost wx = choose|k: int| 0 <= k < before.len() && (#[trigger] before[k]).pos[0] == x;
            let ghost wy = choose|k: int| 0 <= k < before.len() && (#[trigger] before[k]).pos[1] == y;
            let ghost wz = choose|k: int| 0 <= k < before.len() && (#[trigger] before[k]).pos[2] == z;
            assert(after[wx] == before[wx] && after[wy] == before[wy] && after[wz] == before[wz]);
            assert(after[i as int] == self.vertices@[i as int]);
            assert forall|k: int| 0 <= k < after.len() && k != i implies #[trigger] after[k]
                == before[k] by {}
            let p = self.vertices[i].pos;
            if p[0] > x {
                x = p[0];
            }
            if p[1] > y {
                y = p[1];
            }
            if p[2] > z {
                z = p[2];
            }
            i += 1;
        }
        assert(self.vertices@.take(i as int) =~= self.vertices@);
        let m = [x, y, z];
        Some(m)
    }
}

/// The state of the interpreter between two instructions: the mesh gathered
/// so far, and the index in it of the first vertex of the run that the last
/// `VTX` loaded.
#[derive(Debug, PartialEq, Eq)]
pub struct Interpreter {
    pub vertex_offset: usize,
    pub mesh: Mesh,
}

/// What an interpreter state holds.
pub struct InterpreterView {
    pub vertex_offset: nat,
    pub mesh: MeshView,
}

impl View for Interpreter {
    type V = InterpreterView;

    open spec fn view(&self) -> InterpreterView {
        InterpreterView { vertex_offset: self.vertex_offset as nat, mesh: self.mesh@ }
    }
}

impl InterpreterView {
    /// The state before the first instruction.
    pub open spec fn start() -> InterpreterView {
        InterpreterView {
            vertex_offset: 0,
            mesh: MeshView { indices: Seq::empty(), vertices: Seq::empty() },
        }
    }

    /// The state after a `VTX` that loaded `loaded`: the vertices are added
    /// behind those that are there, and the new run starts where they start.
    pub open spec fn load(self, loaded: Seq<rom::Vtx>) -> InterpreterView {
        InterpreterView {
            vertex_offset: self.mesh.vertices.len(),
            mesh: MeshView {
                indices: self.mesh.indices,
                vertices: self.mesh.vertices + loaded.map_values(|v: rom::Vtx| Vertex::spec_from(v)),
            },
        }
    }

    /// The state after a triangle instruction: each index of `local`, counted
    /// inside the current run, is added moved up by the base of the run.
    pub open spec fn emit(self, local: Seq<u32>) -> InterpreterView {
        InterpreterView {
            vertex_offset: self.vertex_offset,
            mesh: MeshView {
                indices: self.mesh.indices + local.map_values(
                    |i: u32| (self.vertex_offset + i) as u32,
                ),
                vertices: self.mesh.vertices,
            },
        }
    }
}

/// The state after the instruction `word`, from the state `state`.
///
/// `VTX` loads its vertices from `segments` and fails as that read fails.
/// `TRI1` emits one triangle and `TRI2` two. Every other instruction leaves
/// the state as it is.
pub open spec fn spec_fold(segments: Segments, state: InterpreterView, word: u64) -> Result<
    InterpreterView,
    Error,
> {
    match Opcode::spec_from_data(word) {
        Some(Opcode::VTX) => match Reader::spec_read_slice(
            segments,
            Vtx(word).spec_addr(),
            Vtx(word).spec_nn() as nat,
        ) {
            Err(e) => Err(e),
            Ok(loaded) => Ok(state.load(loaded)),
        },
        Some(Opcode::TRI1) => Ok(
            state.emit(seq![Tri1(word).spec_aa(), Tri1(word).spec_bb(), Tri1(word).spec_cc()]),
        ),
        Some(Opcode::TRI2) => Ok(
            state.emit(
                seq![
                    Tri2(word).spec_aa(),
                    Tri2(word).spec_bb(),
                    Tri2(word).spec_cc(),
                    Tri2(word).spec_dd(),
                    Tri2(word).spec_ee(),
                    Tri2(word).spec_ff(),
                ],
            ),
        ),
        _ => Ok(state),
    }
}

impl Interpreter {
    /// The state before the first instruction: an empty mesh.
    pub fn new() -> (r: Interpreter)
        ensures
            r@ == InterpreterView::start(),
    {
        Interpreter { vertex_offset: 0, mesh: Mesh::default() }
    }
}

/// Applies one instruction to the state.
///
/// The indices of a mesh are 32-bit numbers: the base of the current run
/// leaves room below `u32::MAX` for the largest index of a triangle.
pub fn fold(reader: &Reader, state: Interpreter, instruction: &Instruction) -> (r: Result<
    Interpreter,
    Error,
>)
    requires
        state.vertex_offset + 0x7F <= u32::MAX,
    ensures
        match r {
            Ok(next) => spec_fold(reader@, state@, instruction.spec_data()) == Ok::<
                InterpreterView,
                Error,
            >(next@),
            Err(e) => spec_fold(reader@, state@, instruction.spec_data()) == Err::<
                InterpreterView,
                Error,
            >(e),
        },
        r matches Ok(next) ==> next@.mesh.vertices.len() <= state@.mesh.vertices.len() + 0xFF && (
        next.vertex_offset == state.vertex_offset || next.vertex_offset
            == state@.mesh.vertices.len()),
{
    let mut state = state;
    let ghost before = state@;
    match instruction.opcode() {
        Opcode::VTX => {
            let data = Vtx::new(instruction);
            let vtxs = reader.read_slice(data.addr(), data.nn() as usize)?;
            state.vertex_offset = state.mesh.vertices.len();
            let mut i: usize = 0;
            while i < vtxs.len()
                invariant
                    i <= vtxs@.len(),
                    state.vertex_offset == before.mesh.vertices.len(),
                    state.mesh.indices@ == before.mesh.indices,
                    state.mesh.vertices@ == before.mesh.vertices + vtxs@.take(i as int).map_values(
                        |v: rom::Vtx| Vertex::spec_from(v),
                    ),
                decreases vtxs@.len() - i,
            {
                state.mesh.vertices.push(Vertex::from(&vtxs[i]));
                assert(vtxs@.take(i as int + 1).map_values(|v: rom::Vtx| Vertex::spec_from(v))
                    =~= vtxs@.take(i as int).map_values(|v: rom::Vtx| Vertex::spec_from(v)).push(
                    Vertex::spec_from(vtxs@[i as int]),
                ));
                i += 1;
            }
            assert(vtxs@.take(i as int) =~= vtxs@);
        },
        Opcode::TRI1 => {
            let data = Tri1::new(instruction);
            let base = state.vertex_offset as u32;
            state.mesh.indices.push(base + data.aa());
            state.mesh.indices.push(base + data.bb());
            state.mesh.indices.push(base + data.cc());
            assert(state@.mesh.indices =~= before.emit(
                seq![data.spec_aa(), data.spec_bb(), data.spec_cc()],
            ).mesh.indices);
        },
        Opcode::TRI2 => {
            let data = Tri2::new(instruction);
            let base = state.vertex_offset as u32;
            state.mesh.indices.push(base + data.aa());
            state.mesh.indices.push(base + data.bb());
            state.mesh.indices.push(base + data.cc());
            state.mesh.indices.push(base + data.dd());
            state.mesh.indices.push(base + data.ee());
            state.mesh.indices.push(base + data.ff());
            assert(state@.mesh.indices =~= before.emit(
                seq![
                    data.spec_aa(),
                    data.spec_bb(),
                    data.spec_cc(),
                    data.spec_dd(),
                    data.spec_ee(),
                    data.spec_ff(),
                ],
            ).mesh.indices);
        },
        _ => {},
    }
    Ok(state)
}

/// The triangles that follow a new run of vertices are counted from the
/// start of that run: after a `VTX` that loads `loaded`, a triangle with the
/// local indices `local` names the vertices at those places behind all that
/// earlier runs have loaded.
pub proof fn lemma_triangles_follow_run(state: InterpreterView, loaded: Seq<rom::Vtx>, local: Seq<u32>)
    ensures
        state.load(loaded).emit(local).mesh.indices == state.mesh.indices + local.map_values(
            |i: u32| (state.mesh.vertices.len() + i) as u32,
        ),
        forall|k: int|
            0 <= k < local.len() && local[k] < loaded.len() && state.mesh.vertices.len()
                + loaded.len() <= u32::MAX ==> state.load(loaded).mesh.vertices[#[trigger] state.load(
                loaded,
            ).emit(local).mesh.indices[state.mesh.indices.len() + k] as int] == Vertex::spec_from(
                loaded[local[k] as int],
            ),
{
    assert(state.load(loaded).emit(local).mesh.indices =~= state.mesh.indices + local.map_values(
        |i: u32| (state.mesh.vertices.len() + i) as u32,
    ));
}

} // verus!
