//! Display lists: streams of 8-byte instruction words, and the operand
//! fields of the instructions that carry geometry.

use crate::addr::{RawVirtAddr, VirtAddr};
use crate::endian::{be_u64, read_u64, tail};
use crate::error::Error;
use crate::rom;
use std::marker::PhantomData;
use vstd::prelude::*;

verus! {

/// The instructions that a display list may hold. Only `VTX`, `TRI1`, `TRI2`
/// and `ENDDL` bear on geometry.
#[derive(Clone, Copy, Debug, PartialEq, Eq, Structural)]
#[allow(non_camel_case_types)]
pub enum Opcode {
    VTX,
    TRI1,
    TRI2,
    TEXTURE,
    GEOMETRYMODE,
    ENDDL,
    SETOTHERMODE_L,
    SETOTHERMODE_H,
    RDPLOADSYNC,
    RDPPIPESYNC,
    RDPTILESYNC,
    LOADTLUT,
    SETTILESIZE,
    LOADBLOCK,
    SETTILE,
    SETPRIMCOLOR,
    SETCOMBINE,
    SETTIMG,
}

/// The top byte of an instruction word.
pub open spec fn spec_top_byte(data: u64) -> int {
    data as int / 0x100_0000_0000_0000
}

/// The byte of `data` whose lowest bit has the place value `unit`.
pub open spec fn spec_field(data: u64, unit: int) -> int {
    (data as int / unit) % 0x100
}

impl Opcode {
    /// The byte that stands for the opcode.
    pub open spec fn spec_code(self) -> u8 {
        match self {
            Opcode::VTX => 0x01,
            Opcode::TRI1 => 0x05,
            Opcode::TRI2 => 0x06,
            Opcode::TEXTURE => 0xD7,
            Opcode::GEOMETRYMODE => 0xD9,
            Opcode::ENDDL => 0xDF,
            Opcode::SETOTHERMODE_L => 0xE2,
            Opcode::SETOTHERMODE_H => 0xE3,
            Opcode::RDPLOADSYNC => 0xE6,
            Opcode::RDPPIPESYNC => 0xE7,
            Opcode::RDPTILESYNC => 0xE8,
            Opcode::LOADTLUT => 0xF0,
            Opcode::SETTILESIZE => 0xF2,
            Opcode::LOADBLOCK => 0xF3,
            Opcode::SETTILE => 0xF5,
            Opcode::SETPRIMCOLOR => 0xFA,
            Opcode::SETCOMBINE => 0xFC,
            Opcode::SETTIMG => 0xFD,
        }
    }

    /// The opcode that a byte stands for, if it stands for one.
    pub open spec fn spec_from_code(code: int) -> Option<Opcode> {
        if code == 0x01 {
            Some(Opcode::VTX)
        } else if code == 0x05 {
            Some(Opcode::TRI1)
        } else if code == 0x06 {
            Some(Opcode::TRI2)
        } else if code == 0xD7 {
            Some(Opcode::TEXTURE)
        } else if code == 0xD9 {
            Some(Opcode::GEOMETRYMODE)
        } else if code == 0xDF {
            Some(Opcode::ENDDL)
        } else if code == 0xE2 {
            Some(Opcode::SETOTHERMODE_L)
        } else if code == 0xE3 {
            Some(Opcode::SETOTHERMODE_H)
        } else if code == 0xE6 {
            Some(Opcode::RDPLOADSYNC)
        } else if code == 0xE7 {
            Some(Opcode::RDPPIPESYNC)
        } else if code == 0xE8 {
            Some(Opcode::RDPTILESYNC)
        } else if code == 0xF0 {
            Some(Opcode::LOADTLUT)
        } else if code == 0xF2 {
            Some(Opcode::SETTILESIZE)
        } else if code == 0xF3 {
            Some(Opcode::LOADBLOCK)
        } else if code == 0xF5 {
            Some(Opcode::SETTILE)
        } else if code == 0xFA {
            Some(Opcode::SETPRIMCOLOR)
        } else if code == 0xFC {
            Some(Opcode::SETCOMBINE)
        } else if code == 0xFD {
            Some(Opcode::SETTIMG)
        } else {
            None
        }
    }

    /// The opcode of an instruction word: what its top byte stands for.
    pub open spec fn spec_from_data(data: u64) -> Option<Opcode> {
        Self::spec_from_code(spec_top_byte(data))
    }

    /// The byte that stands for the opcode.
    pub fn code(self) -> (r: u8)
        ensures
            r == self.spec_code(),
    {
        match self {
            Opcode::VTX => 0x01,
            Opcode::TRI1 => 0x05,
            Opcode::TRI2 => 0x06,
            Opcode::TEXTURE => 0xD7,
            Opcode::GEOMETRYMODE => 0xD9,
            Opcode::ENDDL => 0xDF,
            Opcode::SETOTHERMODE_L => 0xE2,
            Opcode::SETOTHERMODE_H => 0xE3,
            Opcode::RDPLOADSYNC => 0xE6,
            Opcode::RDPPIPESYNC => 0xE7,
            Opcode::RDPTILESYNC => 0xE8,
            Opcode::LOADTLUT => 0xF0,
            Opcode::SETTILESIZE => 0xF2,
            Opcode::LOADBLOCK => 0xF3,
            Opcode::SETTILE => 0xF5,
            Opcode::SETPRIMCOLOR => 0xFA,
            Opcode::SETCOMBINE => 0xFC,
            Opcode::SETTIMG => 0xFD,
        }
    }

    /// Decodes the opcode of an instruction word. A top byte that stands for
    /// no opcode is an error.
    pub fn from_data(data: u64) -> (r: Result<Opcode, Error>)
        ensures
            r == (match Self::spec_from_data(data) {
                Some(opcode) => Ok::<Opcode, Error>(opcode),
                None => Err::<Opcode, Error>(Error::UnknownOpcode),
            }),
    {
        assert(data >> 56u64 == data / 0x100_0000_0000_0000u64) by (bit_vector);
        let op: u64 = data >> 56;
        match op {
            0x01 => Ok(Opcode::VTX),
            0x05 => Ok(Opcode::TRI1),
            0x06 => Ok(Opcode::TRI2),
            0xD7 => Ok(Opcode::TEXTURE),
            0xD9 => Ok(Opcode::GEOMETRYMODE),
            0xDF => Ok(Opcode::ENDDL),
            0xE2 => Ok(Opcode::SETOTHERMODE_L),
            0xE3 => Ok(Opcode::SETOTHERMODE_H),
            0xE6 => Ok(Opcode::RDPLOADSYNC),
            0xE7 => Ok(Opcode::RDPPIPESYNC),
            0xE8 => Ok(Opcode::RDPTILESYNC),
            0xF0 => Ok(Opcode::LOADTLUT),
            0xF2 => Ok(Opcode::SETTILESIZE),
            0xF3 => Ok(Opcode::LOADBLOCK),
            0xF5 => Ok(Opcode::SETTILE),
            0xFA => Ok(Opcode::SETPRIMCOLOR),
            0xFC => Ok(Opcode::SETCOMBINE),
            0xFD => Ok(Opcode::SETTIMG),
            _ => Err(Error::UnknownOpcode),
        }
    }
}

/// Every opcode is what its own byte stands for.
pub proof fn lemma_code_round_trip(opcode: Opcode)
    ensures
        Opcode::spec_from_code(opcode.spec_code() as int) == Some(opcode),
{
}

/// An instruction word whose opcode is known.
pub struct Instruction(u64);

impl Instruction {
    #[verifier::type_invariant]
    spec fn inv(self) -> bool {
        Opcode::spec_from_data(self.0) is Some
    }

    /// The instruction word.
    pub closed spec fn spec_data(&self) -> u64 {
        self.0
    }

    /// Takes `data` as an instruction. The top byte of `data` stands for an
    /// opcode.
    pub fn new(data: u64) -> (r: Self)
        requires
            Opcode::spec_from_data(data) is Some,
        ensures
            r.spec_data() == data,
    {
        Instruction(data)
    }

    /// The instruction word.
    #[verifier::when_used_as_spec(spec_data)]
    pub fn data(&self) -> (r: u64)
        ensures
            r == self.spec_data(),
    {
        self.0
    }

    /// The opcode of the instruction.
    pub fn opcode(&self) -> (r: Opcode)
        ensures
            Opcode::spec_from_data(self.spec_data()) == Some(r),
    {
        proof {
            use_type_invariant(self);
        }
        match Opcode::from_data(self.0) {
            Ok(opcode) => opcode,
            Err(_) => vstd::pervasive::unreached(),
        }
    }
}

/// What the next step of a stream over `s` yields: nothing where fewer than
/// eight bytes are left, else the word that the first eight bytes spell, or an
/// error where its top byte stands for no opcode.
pub open spec fn spec_next(s: Seq<u8>) -> Result<Option<u64>, Error> {
    if s.len() < 8 {
        Ok(None)
    } else if Opcode::spec_from_data(be_u64(s, 0)) is None {
        Err(Error::UnknownOpcode)
    } else {
        Ok(Some(be_u64(s, 0)))
    }
}

/// What is left of a stream over `s` after its next step: nothing after the
/// end of the list, the bytes behind the instruction after any other
/// instruction, and `s` itself where the step yields no instruction.
pub open spec fn spec_rest(s: Seq<u8>) -> Seq<u8> {
    if s.len() < 8 {
        s
    } else {
        match Opcode::spec_from_data(be_u64(s, 0)) {
            None => s,
            Some(Opcode::ENDDL) => Seq::empty(),
            Some(_) => s.skip(8),
        }
    }
}

/// All the words that a stream over `s` yields, the end of the list included,
/// or the error that stops it.
pub open spec fn spec_instructions(s: Seq<u8>) -> Result<Seq<u64>, Error>
    decreases s.len(),
{
    match spec_next(s) {
        Err(e) => Err(e),
        Ok(None) => Ok(Seq::empty()),
        Ok(Some(word)) => match spec_instructions(spec_rest(s)) {
            Err(e) => Err(e),
            Ok(words) => Ok(seq![word] + words),
        },
    }
}

/// The number of bytes up to and including the end-of-list instruction that
/// ends a stream over `s`; `None` where the stream ends in another way.
pub open spec fn spec_end(s: Seq<u8>) -> Option<nat>
    decreases s.len(),
{
    if s.len() < 8 {
        None
    } else {
        match Opcode::spec_from_data(be_u64(s, 0)) {
            None => None,
            Some(Opcode::ENDDL) => Some(8nat),
            Some(_) => match spec_end(s.skip(8)) {
                None => None,
                Some(n) => Some(n + 8),
            },
        }
    }
}

/// A stream that an end-of-list instruction ends reads nothing behind that
/// instruction: any bytes `t` that agree with `s` up to and including it give
/// the same instructions.
pub proof fn lemma_nothing_read_past_end(s: Seq<u8>, t: Seq<u8>)
    requires
        spec_end(s) is Some,
        t.len() >= spec_end(s).unwrap(),
        t.take(spec_end(s).unwrap() as int) == s.take(spec_end(s).unwrap() as int),
    ensures
        spec_end(s).unwrap() <= s.len(),
        spec_end(t) == spec_end(s),
        spec_instructions(t) == spec_instructions(s),
    decreases s.len(),
{
    let n = spec_end(s).unwrap() as int;
    lemma_end_in_range(s);
    assert forall|i: int| 0 <= i < 8 implies t[i] == s[i] by {
        assert(t.take(n)[i] == s.take(n)[i]);
    }
    assert(be_u64(t, 0) == be_u64(s, 0));
    if Opcode::spec_from_data(be_u64(s, 0)) != Some(Opcode::ENDDL) {
        let m = spec_end(s.skip(8)).unwrap() as int;
        lemma_end_in_range(s.skip(8));
        assert(t.skip(8).take(m) =~= s.skip(8).take(m)) by {
            assert forall|i: int| 0 <= i < m implies t.skip(8)[i] == s.skip(8)[i] by {
                assert(t.take(n)[i + 8] == s.take(n)[i + 8]);
            }
        }
        lemma_nothing_read_past_end(s.skip(8), t.skip(8));
    }
}

/// The end of a stream lies inside the stream, on a multiple of eight bytes.
pub proof fn lemma_end_in_range(s: Seq<u8>)
    requires
        spec_end(s) is Some,
    ensures
        8 <= spec_end(s).unwrap() <= s.len(),
        spec_end(s).unwrap() % 8 == 0,
    decreases s.len(),
{
    if Opcode::spec_from_data(be_u64(s, 0)) != Some(Opcode::ENDDL) {
        lemma_end_in_range(s.skip(8));
    }
}

/// A cursor over the bytes of a display list.
#[derive(Clone, Copy)]
pub struct InstructionStream<'a>(&'a [u8]);

impl<'a> View for InstructionStream<'a> {
    type V = Seq<u8>;

    /// The bytes that the stream has not read yet.
    closed spec fn view(&self) -> Seq<u8> {
        self.0@
    }
}

impl<'a> InstructionStream<'a> {
    /// A stream over `data`, at its start.
    pub fn new(data: &'a [u8]) -> (r: Self)
        ensures
            r@ == data@,
    {
        InstructionStream(data)
    }

    /// Reads the next instruction. The stream is at its end after an
    /// end-of-list instruction, and where fewer than eight bytes are left. At
    /// an unknown opcode it fails and stays where it is.
    pub fn next(&mut self) -> (r: Result<Option<Instruction>, Error>)
        ensures
            match r {
                Ok(Some(instruction)) => spec_next(old(self)@) == Ok::<Option<u64>, Error>(
                    Some(instruction.spec_data()),
                ),
                Ok(None) => spec_next(old(self)@) == Ok::<Option<u64>, Error>(None),
                Err(e) => spec_next(old(self)@) == Err::<Option<u64>, Error>(e),
            },
            final(self)@ == spec_rest(old(self)@),
    {
        let word = match read_u64(self.0) {
            Some(word) => word,
            None => {
                return Ok(None);
            },
        };
        let opcode = Opcode::from_data(word)?;
        let instruction = Instruction::new(word);
        if opcode == Opcode::ENDDL {
            self.0 = tail(self.0, self.0.len());
            assert(self.0@ =~= Seq::<u8>::empty());
        } else {
            self.0 = tail(self.0, 8);
        }
        Ok(Some(instruction))
    }
}

/// The words of `instructions`.
pub open spec fn spec_words(instructions: Seq<Instruction>) -> Seq<u64> {
    instructions.map_values(|instruction: Instruction| instruction.spec_data())
}

impl<'a> InstructionStream<'a> {
    /// Reads all the instructions that are left, the end of the list
    /// included where there is one.
    pub fn instructions(self) -> (r: Result<Vec<Instruction>, Error>)
        ensures
            match r {
                Ok(instructions) => spec_instructions(self@) == Ok::<Seq<u64>, Error>(
                    spec_words(instructions@),
                ),
                Err(e) => spec_instructions(self@) == Err::<Seq<u64>, Error>(e),
            },
    {
        let mut stream = self;
        let mut instructions: Vec<Instruction> = Vec::new();
        loop
            invariant
                spec_instructions(self@) == (match spec_instructions(stream@) {
                    Err(e) => Err::<Seq<u64>, Error>(e),
                    Ok(words) => Ok::<Seq<u64>, Error>(spec_words(instructions@) + words),
                }),
            ensures
                spec_instructions(self@) == Ok::<Seq<u64>, Error>(spec_words(instructions@)),
            decreases stream@.len(),
        {
            let ghost before = spec_words(instructions@);
            let ghost s = stream@;
            match stream.next() {
                Ok(Some(instruction)) => {
                    let ghost word = instruction.spec_data();
                    instructions.push(instruction);
                    proof {
                        assert(spec_words(instructions@) =~= before.push(word));
                        match spec_instructions(stream@) {
                            Ok(words) => {
                                assert(before + (seq![word] + words) =~= before.push(word) + words);
                            },
                            Err(_) => {},
                        }
                    }
                },
                Ok(None) => {
                    assert(before + Seq::<u64>::empty() =~= before);
                    break ;
                },
                Err(e) => {
                    return Err(e);
                },
            }
        }
        Ok(instructions)
    }
}

/// The operands of a `VTX` instruction.
pub struct Vtx(pub u64);

impl Vtx {
    /// The address that the vertices are loaded from: the low 32 bits.
    pub open spec fn spec_addr(&self) -> VirtAddr<rom::Vtx> {
        VirtAddr(RawVirtAddr((self.0 as int % 0x1_0000_0000) as u32), PhantomData)
    }

    /// The number of vertices to load: bits 44 to 51.
    pub open spec fn spec_nn(&self) -> u32 {
        spec_field(self.0, 0x1000_0000_0000) as u32
    }

    /// Twice the index behind the last vertex loaded: bits 32 to 39.
    pub open spec fn spec_aa(&self) -> u32 {
        spec_field(self.0, 0x1_0000_0000) as u32
    }

    /// The operands of `instruction`, read as a `VTX`.
    pub fn new(instruction: &Instruction) -> (r: Self)
        ensures
            r.0 == instruction.spec_data(),
    {
        Vtx(instruction.data())
    }

    /// The address that the vertices are loaded from.
    pub fn addr(&self) -> (r: VirtAddr<rom::Vtx>)
        ensures
            r == self.spec_addr(),
    {
        let data: u64 = self.0;
        assert(data & 0xFFFF_FFFFu64 == data % 0x1_0000_0000u64) by (bit_vector);
        VirtAddr(RawVirtAddr::new((data & 0xFFFF_FFFF) as u32), PhantomData)
    }

    /// The number of vertices to load.
    pub fn nn(&self) -> (r: u32)
        ensures
            r == self.spec_nn(),
            r < 0x100,
    {
        let data: u64 = self.0;
        assert((data & 0x000F_F000_0000_0000u64) >> 44u64 == (data / 0x1000_0000_0000u64) % 0x100u64)
            by (bit_vector);
        ((data & 0x000F_F000_0000_0000u64) >> 44) as u32
    }

    /// Twice the index behind the last vertex loaded.
    pub fn aa(&self) -> (r: u32)
        ensures
            r == self.spec_aa(),
            r < 0x100,
    {
        let data: u64 = self.0;
        assert((data & 0x0000_00FF_0000_0000u64) >> 32u64 == (data / 0x1_0000_0000u64) % 0x100u64)
            by (bit_vector);
        ((data & 0x0000_00FF_0000_0000u64) >> 32) as u32
    }
}

/// The operands of a `TRI1` instruction: three vertex indices, each stored
/// doubled.
pub struct Tri1(pub u64);

impl Tri1 {
    /// The first index: half of bits 48 to 55, rounded down.
    pub open spec fn spec_aa(&self) -> u32 {
        (spec_field(self.0, 0x1_0000_0000_0000) / 2) as u32
    }

    /// The second index: half of bits 40 to 47, rounded down.
    pub open spec fn spec_bb(&self) -> u32 {
        (spec_field(self.0, 0x100_0000_0000) / 2) as u32
    }

    /// The third index: half of bits 32 to 39, rounded down.
    pub open spec fn spec_cc(&self) -> u32 {
        (spec_field(self.0, 0x1_0000_0000) / 2) as u32
    }

    /// The operands of `instruction`, read as a `TRI1`.
    pub fn new(instruction: &Instruction) -> (r: Self)
        ensures
            r.0 == instruction.spec_data(),
    {
        Tri1(instruction.data())
    }

    /// The first vertex index, halved.
    pub fn aa(&self) -> (r: u32)
        ensures
            r == self.spec_aa(),
            r < 0x80,
    {
        let data: u64 = self.0;
        assert(((data & 0x00FF_0000_0000_0000u64) >> 48u64) / 2u64 == ((data
            / 0x1_0000_0000_0000u64) % 0x100u64) / 2u64) by (bit_vector);
        (((data & 0x00FF_0000_0000_0000u64) >> 48) / 2) as u32
    }

    /// The second vertex index, halved.
    pub fn bb(&self) -> (r: u32)
        ensures
            r == self.spec_bb(),
            r < 0x80,
    {
        let data: u64 = self.0;
        assert(((data & 0x0000_FF00_0000_0000u64) >> 40u64) / 2u64 == ((data
            / 0x100_0000_0000u64) % 0x100u64) / 2u64) by (bit_vector);
        (((data & 0x0000_FF00_0000_0000u64) >> 40) / 2) as u32
    }

    /// The third vertex index, halved.
    pub fn cc(&self) -> (r: u32)
        ensures
            r == self.spec_cc(),
            r < 0x80,
    {
        let data: u64 = self.0;
        assert(((data & 0x0000_00FF_0000_0000u64) >> 32u64) / 2u64 == ((data / 0x1_0000_0000u64)
            % 0x100u64) / 2u64) by (bit_vector);
        (((data & 0x0000_00FF_0000_0000u64) >> 32) / 2) as u32
    }
}

/// The operands of a `TRI2` instruction: two triangles, six vertex indices,
/// each stored doubled.
pub struct Tri2(pub u64);

impl Tri2 {
    /// The first index of the first triangle: half of bits 48 to 55.
    pub open spec fn spec_aa(&self) -> u32 {
        (spec_field(self.0, 0x1_0000_0000_0000) / 2) as u32
    }

    /// The second index of the first triangle: half of bits 40 to 47.
    pub open spec fn spec_bb(&self) -> u32 {
        (spec_field(self.0, 0x100_0000_0000) / 2) as u32
    }

    /// The third index of the first triangle: half of bits 32 to 39.
    pub open spec fn spec_cc(&self) -> u32 {
        (spec_field(self.0, 0x1_0000_0000) / 2) as u32
    }

    /// The first index of the second triangle: half of bits 16 to 23.
    pub open spec fn spec_dd(&self) -> u32 {
        (spec_field(self.0, 0x1_0000) / 2) as u32
    }

    /// The second index of the second triangle: half of bits 8 to 15.
    pub open spec fn spec_ee(&self) -> u32 {
        (spec_field(self.0, 0x100) / 2) as u32
    }

    /// The third index of the second triangle: half of bits 0 to 7.
    pub open spec fn spec_ff(&self) -> u32 {
        (spec_field(self.0, 1) / 2) as u32
    }

    /// The operands of `instruction`, read as a `TRI2`.
    pub fn new(instruction: &Instruction) -> (r: Self)
        ensures
            r.0 == instruction.spec_data(),
    {
        Tri2(instruction.data())
    }

    /// The first vertex index, halved.
    pub fn aa(&self) -> (r: u32)
        ensures
            r == self.spec_aa(),
            r < 0x80,
    {
        let data: u64 = self.0;
        assert(((data & 0x00FF_0000_0000_0000u64) >> 48u64) / 2u64 == ((data
            / 0x1_0000_0000_0000u64) % 0x100u64) / 2u64) by (bit_vector);
        (((data & 0x00FF_0000_0000_0000u64) >> 48) / 2) as u32
    }

    /// The second vertex index, halved.
    pub fn bb(&self) -> (r: u32)
        ensures
            r == self.spec_bb(),
            r < 0x80,
    {
        let data: u64 = self.0;
        assert(((data & 0x0000_FF00_0000_0000u64) >> 40u64) / 2u64 == ((data
            / 0x100_0000_0000u64) % 0x100u64) / 2u64) by (bit_vector);
        (((data & 0x0000_FF00_0000_0000u64) >> 40) / 2) as u32
    }

    /// The third vertex index, halved.
    pub fn cc(&self) -> (r: u32)
        ensures
            r == self.spec_cc(),
            r < 0x80,
    {
        let data: u64 = self.0;
        assert(((data & 0x0000_00FF_0000_0000u64) >> 32u64) / 2u64 == ((data / 0x1_0000_0000u64)
            % 0x100u64) / 2u64) by (bit_vector);
        (((data & 0x0000_00FF_0000_0000u64) >> 32) / 2) as u32
    }

    /// The fourth vertex index, halved.
    pub fn dd(&self) -> (r: u32)
        ensures
            r == self.spec_dd(),
            r < 0x80,
    {
        let data: u64 = self.0;
        assert(((data & 0x0000_0000_00FF_0000u64) >> 16u64) / 2u64 == ((data / 0x1_0000u64)
            % 0x100u64) / 2u64) by (bit_vector);
        (((data & 0x0000_0000_00FF_0000u64) >> 16) / 2) as u32
    }

    /// The fifth vertex index, halved.
    pub fn ee(&self) -> (r: u32)
        ensures
            r == self.spec_ee(),
            r < 0x80,
    {
        let data: u64 = self.0;
        assert(((data & 0x0000_0000_0000_FF00u64) >> 8u64) / 2u64 == ((data / 0x100u64) % 0x100u64)
            / 2u64) by (bit_vector);
        (((data & 0x0000_0000_0000_FF00u64) >> 8) / 2) as u32
    }

    /// The sixth vertex index, halved.
    pub fn ff(&self) -> (r: u32)
        ensures
            r == self.spec_ff(),
            r < 0x80,
    {
        let data: u64 = self.0;
        assert(((data & 0x0000_0000_0000_00FFu64) >> 0u64) / 2u64 == (data % 0x100u64) / 2u64)
            by (bit_vector);
        (((data & 0x0000_0000_0000_00FFu64) >> 0) / 2) as u32
    }
}

/// Halving an index rounds down: an operand byte that holds `2 * k` or
/// `2 * k + 1` gives the index `k`, in each of the three operands of `TRI1`
/// and of the six operands of `TRI2`.
pub proof fn lemma_index_halving(data: u64, k: int)
    ensures
        spec_field(data, 0x1_0000_0000_0000) == 2 * k || spec_field(data, 0x1_0000_0000_0000) == 2
            * k + 1 ==> Tri1(data).spec_aa() == k && Tri2(data).spec_aa() == k,
        spec_field(data, 0x100_0000_0000) == 2 * k || spec_field(data, 0x100_0000_0000) == 2 * k
            + 1 ==> Tri1(data).spec_bb() == k && Tri2(data).spec_bb() == k,
        spec_field(data, 0x1_0000_0000) == 2 * k || spec_field(data, 0x1_0000_0000) == 2 * k + 1
            ==> Tri1(data).spec_cc() == k && Tri2(data).spec_cc() == k,
        spec_field(data, 0x1_0000) == 2 * k || spec_field(data, 0x1_0000) == 2 * k + 1 ==> Tri2(
            data,
        ).spec_dd() == k,
        spec_field(data, 0x100) == 2 * k || spec_field(data, 0x100) == 2 * k + 1 ==> Tri2(
            data,
        ).spec_ee() == k,
        spec_field(data, 1) == 2 * k || spec_field(data, 1) == 2 * k + 1 ==> Tri2(data).spec_ff()
            == k,
{
}

} // verus!
