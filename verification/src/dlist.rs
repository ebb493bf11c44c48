//! Running a display list from an address in the segment table.

use crate::addr::{RawVirtAddr, VirtAddr};
use crate::display_list::{
    lemma_end_in_range, spec_end, spec_next, spec_rest, InstructionStream,
};
use crate::endian::be_u64;
use crate::error::Error;
use crate::mesh::{fold, spec_fold, Interpreter, InterpreterView, Mesh, MeshView};
use crate::rom::{Reader, Segments, SEGMENT_MAX_LEN};
use std::marker::PhantomData;
use vstd::prelude::*;

pub use crate::display_list::Opcode;
pub use crate::rom::Vtx;

verus! {

/// The state after all the instructions of a stream over `s`, from the state
/// `state`. The first instruction that fails stops the run with its error.
pub open spec fn spec_run(segments: Segments, s: Seq<u8>, state: InterpreterView) -> Result<
    InterpreterView,
    Error,
>
    decreases s.len(),
{
    match spec_next(s) {
        Err(e) => Err(e),
        Ok(None) => Ok(state),
        Ok(Some(word)) => match spec_fold(segments, state, word) {
            Err(e) => Err(e),
            Ok(next) => spec_run(segments, spec_rest(s), next),
        },
    }
}

/// The mesh of the display list at `addr`: the instructions from `addr` to the
/// end of the list, or of the segment, applied to an empty mesh.
pub open spec fn spec_dlist(segments: Segments, addr: RawVirtAddr) -> Result<MeshView, Error> {
    match Reader::spec_slice_from(segments, addr) {
        Err(e) => Err(e),
        Ok(s) => match spec_run(segments, s, InterpreterView::start()) {
            Err(e) => Err(e),
            Ok(state) => Ok(state.mesh),
        },
    }
}

/// A run that an end-of-list instruction ends reads nothing behind that
/// instruction: over any bytes `t` that agree with `s` up to and including it,
/// the run ends in the same state, or with the same error.
pub proof fn lemma_run_stops_at_end(
    segments: Segments,
    s: Seq<u8>,
    t: Seq<u8>,
    state: InterpreterView,
)
    requires
        spec_end(s) is Some,
        t.len() >= spec_end(s).unwrap(),
        t.take(spec_end(s).unwrap() as int) == s.take(spec_end(s).unwrap() as int),
    ensures
        spec_run(segments, t, state) == spec_run(segments, s, state),
    decreases s.len(),
{
    let n = spec_end(s).unwrap() as int;
    lemma_end_in_range(s);
    assert forall|i: int| 0 <= i < 8 implies t[i] == s[i] by {
        assert(t.take(n)[i] == s.take(n)[i]);
    }
    assert(be_u64(t, 0) == be_u64(s, 0));
    let word = be_u64(s, 0);
    if Opcode::spec_from_data(word) == Some(Opcode::ENDDL) {
        assert(spec_rest(s) =~= spec_rest(t));
    } else {
        let m = spec_end(s.skip(8)).unwrap() as int;
        lemma_end_in_range(s.skip(8));
        assert(t.skip(8).take(m) =~= s.skip(8).take(m)) by {
            assert forall|i: int| 0 <= i < m implies t.skip(8)[i] == s.skip(8)[i] by {
                assert(t.take(n)[i + 8] == s.take(n)[i + 8]);
            }
        }
        match spec_fold(segments, state, word) {
            Err(_) => {},
            Ok(next) => {
                lemma_run_stops_at_end(segments, s.skip(8), t.skip(8), next);
            },
        }
    }
}

/// Runs the display list at `addr` and gives its mesh.
///
/// The run ends at the end-of-list instruction, or where fewer than eight
/// bytes of the segment are left. It fails where `addr` does not resolve,
/// where an instruction has an unknown opcode, and where a `VTX` cannot load
/// its vertices.
pub fn dlist_to_gltf(reader: &Reader, addr: RawVirtAddr) -> (r: Result<Mesh, Error>)
    ensures
        match r {
            Ok(mesh) => spec_dlist(reader@, addr) == Ok::<MeshView, Error>(mesh@),
            Err(e) => spec_dlist(reader@, addr) == Err::<MeshView, Error>(e),
        },
{
    let bytes = reader.slice_from(addr)?;
    let mut stream = InstructionStream::new(bytes);
    let mut state = Interpreter::new();
    loop
        invariant
            Reader::spec_slice_from(reader@, addr) == Ok::<Seq<u8>, Error>(bytes@),
            state.vertex_offset <= state@.mesh.vertices.len(),
            8 * state@.mesh.vertices.len() + 0xFF * stream@.len() <= 0xFF * SEGMENT_MAX_LEN,
            spec_run(reader@, stream@, state@) == spec_run(
                reader@,
                bytes@,
                InterpreterView::start(),
            ),
        ensures
            spec_run(reader@, bytes@, InterpreterView::start()) == Ok::<InterpreterView, Error>(
                state@,
            ),
        decreases stream@.len(),
    {
        let ghost s = stream@;
        let instruction = match stream.next() {
            Ok(Some(instruction)) => instruction,
            Ok(None) => {
                break ;
            },
            Err(e) => {
                return Err(e);
            },
        };
        assert(stream@.len() + 8 <= s.len());
        state = match fold(reader, state, &instruction) {
            Ok(next) => next,
            Err(e) => {
                return Err(e);
            },
        };
    }
    Ok(state.mesh)
}

/// A cursor that walks a display list by address, one instruction at each
/// step.
#[derive(Debug)]
pub struct InstrIter {
    pub pos: u32,
}

impl InstrIter {
    /// What a step from the address `pos` yields: the opcode and the word of
    /// the instruction there, `None` where it is the end of the list, or the
    /// error of reading or decoding it.
    pub open spec fn spec_next(segments: Segments, pos: u32) -> Result<
        Option<(Opcode, u64)>,
        Error,
    > {
        match Reader::spec_read::<u64>(segments, VirtAddr(RawVirtAddr(pos), PhantomData)) {
            Err(e) => Err(e),
            Ok(data) => match Opcode::spec_from_data(data) {
                None => Err(Error::UnknownOpcode),
                Some(Opcode::ENDDL) => Ok(None),
                Some(opcode) => Ok(Some((opcode, data))),
            },
        }
    }

    /// A cursor at the address `addr`.
    pub fn new(addr: u32) -> (r: Self)
        ensures
            r.pos == addr,
    {
        InstrIter { pos: addr }
    }

    /// Reads the instruction at the cursor and decodes its opcode. The cursor
    /// moves on by eight bytes once the word is read, and stays where the
    /// read fails.
    pub fn next(&mut self, r: &Reader) -> (result: Result<Option<(Opcode, u64)>, Error>)
        ensures
            result == Self::spec_next(r@, old(self).pos),
            final(self).pos == (if Reader::spec_read::<u64>(
                r@,
                VirtAddr(RawVirtAddr(old(self).pos), PhantomData),
            ) is Ok {
                RawVirtAddr(old(self).pos).spec_offset(8).0
            } else {
                old(self).pos
            }),
    {
        let data = r.read::<u64>(VirtAddr(RawVirtAddr::new(self.pos), PhantomData))?;
        self.pos = (RawVirtAddr::new(self.pos) + 8i32).0;
        let opcode = Opcode::from_data(data)?;
        if opcode == Opcode::ENDDL {
            Ok(None)
        } else {
            Ok(Some((opcode, data)))
        }
    }
}

} // verus!
