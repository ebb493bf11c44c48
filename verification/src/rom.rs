//! The segment table, and the fixed-layout records that are read through it.

use crate::addr::{RawVirtAddr, VirtAddr};
use crate::endian::{
    be_i16, be_i32, be_u16, be_u32, be_u64, i16_at, i16_be_bytes, i32_at, i8_at, push_i16, signed8,
    tail, u16_at, u32_at, u64_at,
};
use crate::collect::{lemma_collect_err, lemma_collect_ok, spec_collect};
use crate::error::Error;
use std::marker::PhantomData;
use vstd::prelude::*;

verus! {

/// What a segment table holds: for each of the 16 segment numbers, the bytes
/// of the buffer that was loaded into it, if any.
pub type Segments = Seq<Option<Seq<u8>>>;

/// The largest buffer that a segment can hold: an offset has 24 bits.
pub const SEGMENT_MAX_LEN: usize = 0x100_0000;

/// A record of fixed size and layout that is decoded from the bytes of a
/// segment, all of its integers big-endian.
pub trait ReadSegment: Sized {
    /// The number of bytes that the record takes.
    spec fn spec_size() -> nat;

    /// The record that the first `spec_size()` bytes of `bytes` hold.
    spec fn spec_read(bytes: Seq<u8>) -> Self;

    /// The number of bytes that the record takes.
    fn size() -> (n: u32)
        ensures
            n == Self::spec_size(),
    ;

    /// Decodes the record that `bytes` starts with.
    fn read(bytes: &[u8]) -> (r: Self)
        requires
            bytes@.len() >= Self::spec_size(),
        ensures
            r == Self::spec_read(bytes@),
    ;
}

/// The segments that the game's objects are loaded into.
#[derive(Clone, Copy, Debug, PartialEq, Eq, Structural)]
pub enum Segment {
    Scene,
    Room,
    Keep,
    FieldDungeonKeep,
    Object,
    LinkAnimation,
    IconItemStatic,
}

impl Segment {
    /// The segment's number in a virtual address.
    pub open spec fn spec_number(self) -> usize {
        match self {
            Segment::Scene => 2,
            Segment::Room => 3,
            Segment::Keep => 4,
            Segment::FieldDungeonKeep => 5,
            Segment::Object => 6,
            Segment::LinkAnimation => 7,
            Segment::IconItemStatic => 8,
        }
    }

    /// The segment's number in a virtual address.
    #[verifier::when_used_as_spec(spec_number)]
    pub fn number(self) -> (n: usize)
        ensures
            n == self.spec_number(),
    {
        match self {
            Segment::Scene => 2,
            Segment::Room => 3,
            Segment::Keep => 4,
            Segment::FieldDungeonKeep => 5,
            Segment::Object => 6,
            Segment::LinkAnimation => 7,
            Segment::IconItemStatic => 8,
        }
    }
}

/// What the payload address of a limb points at, as its discriminant says.
#[derive(Clone, Copy, Debug, PartialEq, Eq, Structural)]
pub enum SkinLimbType {
    Animated,
    Normal,
}

impl SkinLimbType {
    /// The limb type that a discriminant stands for: 4 is animated, 11 is
    /// normal, and no other value is a type.
    pub open spec fn spec_from_i32(n: i32) -> Option<SkinLimbType> {
        if n == 4 {
            Some(SkinLimbType::Animated)
        } else if n == 11 {
            Some(SkinLimbType::Normal)
        } else {
            None
        }
    }

    /// The limb type that the discriminant `n` stands for.
    pub fn from_i32(n: i32) -> (r: Option<SkinLimbType>)
        ensures
            r == Self::spec_from_i32(n),
    {
        if n == 4 {
            Some(SkinLimbType::Animated)
        } else if n == 11 {
            Some(SkinLimbType::Normal)
        } else {
            None
        }
    }
}

/// The segment table: for each of the 16 segment numbers, the buffer that was
/// loaded into it, if any.
#[derive(Debug)]
pub struct Reader {
    segments: Vec<Option<Vec<u8>>>,
}

impl View for Reader {
    type V = Segments;

    /// The 16 slots of the table, each with the bytes of its buffer.
    closed spec fn view(&self) -> Seq<Option<Seq<u8>>> {
        Seq::new(
            16,
            |i: int|
                match self.segments@[i] {
                    Some(data) => Some(data@),
                    None => None,
                },
        )
    }
}

impl Default for Reader {
    fn default() -> (r: Reader)
        ensures
            r@ == Seq::new(16, |i: int| None::<Seq<u8>>),
    {
        Reader::new()
    }
}

impl Reader {
    #[verifier::type_invariant]
    spec fn inv(self) -> bool {
        &&& self.segments@.len() == 16
        &&& forall|i: int|
            0 <= i < 16 ==> (#[trigger] self.segments@[i] matches Some(data) ==> data@.len()
                <= SEGMENT_MAX_LEN)
    }

    /// The bytes from `addr` to the end of its segment.
    ///
    /// Fails with `SegmentUnset` where the segment holds no buffer, and with
    /// `AddressOutOfRange` where the offset is not inside the buffer.
    pub open spec fn spec_slice_from(segments: Segments, addr: RawVirtAddr) -> Result<
        Seq<u8>,
        Error,
    > {
        match segments[addr.spec_segment_number() as int] {
            None => Err(Error::SegmentUnset),
            Some(data) => if addr.spec_segment_offset() >= data.len() {
                Err(Error::AddressOutOfRange)
            } else {
                Ok(data.skip(addr.spec_segment_offset() as int))
            },
        }
    }

    /// The record at `addr`: `Truncated` where the segment ends before the
    /// record does.
    pub open spec fn spec_read<T: ReadSegment>(segments: Segments, addr: VirtAddr<T>) -> Result<
        T,
        Error,
    > {
        match Self::spec_slice_from(segments, addr.0) {
            Err(e) => Err(e),
            Ok(bytes) => if bytes.len() < T::spec_size() {
                Err(Error::Truncated)
            } else {
                Ok(T::spec_read(bytes))
            },
        }
    }

    /// The `count` records that lie one after the other from `addr` on.
    pub open spec fn spec_read_slice<T: ReadSegment>(
        segments: Segments,
        addr: VirtAddr<T>,
        count: nat,
    ) -> Result<Seq<T>, Error> {
        match Self::spec_slice_from(segments, addr.0) {
            Err(e) => Err(e),
            Ok(bytes) => if bytes.len() < count * T::spec_size() {
                Err(Error::Truncated)
            } else {
                Ok(Seq::new(count, |i: int| T::spec_read(bytes.skip(i * T::spec_size()))))
            },
        }
    }

    /// For each of `addrs`, the record that it points at, or why it cannot be
    /// read.
    pub open spec fn spec_read_results<T: ReadSegment>(
        segments: Segments,
        addrs: Seq<VirtAddr<T>>,
    ) -> Seq<Result<T, Error>> {
        addrs.map_values(|addr: VirtAddr<T>| Self::spec_read(segments, addr))
    }

    /// The records behind a table of `count` addresses at `addr`.
    pub open spec fn spec_ptr_slice<T: ReadSegment>(
        segments: Segments,
        addr: VirtAddr<VirtAddr<T>>,
        count: nat,
    ) -> Result<Seq<T>, Error> {
        match Self::spec_read_slice(segments, addr, count) {
            Err(e) => Err(e),
            Ok(addrs) => spec_collect(Self::spec_read_results(segments, addrs)),
        }
    }

    /// A table with no segment loaded.
    pub fn new() -> (r: Self)
        ensures
            r@ == Seq::new(16, |i: int| None::<Seq<u8>>),
    {
        let r = Reader { segments: empty_slots() };
        assert(r@ =~= Seq::new(16, |i: int| None::<Seq<u8>>));
        r
    }

    /// Installs `data` as the buffer of `segment`, or empties the slot. The
    /// buffer that the slot held before is dropped.
    ///
    /// An offset has 24 bits, so a buffer has at most `SEGMENT_MAX_LEN` bytes.
    pub fn set_segment(&mut self, segment: Segment, data: Option<Vec<u8>>)
        requires
            data matches Some(buffer) ==> buffer@.len() <= SEGMENT_MAX_LEN,
        ensures
            final(self)@ == old(self)@.update(
                segment.spec_number() as int,
                match data {
                    Some(buffer) => Some(buffer@),
                    None => None,
                },
            ),
    {
        proof {
            use_type_invariant(&*self);
        }
        let n = segment.number();
        let mut segments = empty_slots();
        std::mem::swap(&mut self.segments, &mut segments);
        segments.set(n, data);
        std::mem::swap(&mut self.segments, &mut segments);
        assert(self@ =~= old(self)@.update(
            segment.spec_number() as int,
            match data {
                Some(buffer) => Some(buffer@),
                None => None,
            },
        ));
    }

    /// Installs `data` as the buffer of `segment` where it is no longer than a
    /// segment can be, and says whether it did. A buffer that is too long
    /// leaves the table as it is.
    pub fn load_segment(&mut self, segment: Segment, data: Vec<u8>) -> (loaded: bool)
        ensures
            loaded == (data@.len() <= SEGMENT_MAX_LEN),
            final(self)@ == (if loaded {
                old(self)@.update(segment.spec_number() as int, Some(data@))
            } else {
                old(self)@
            }),
    {
        if data.len() <= SEGMENT_MAX_LEN {
            self.set_segment(segment, Some(data));
            true
        } else {
            false
        }
    }

    /// Resolves `addr`: the bytes from it to the end of its segment.
    pub fn slice_from(&self, addr: RawVirtAddr) -> (r: Result<&[u8], Error>)
        ensures
            match r {
                Ok(bytes) => Reader::spec_slice_from(self@, addr) == Ok::<Seq<u8>, Error>(bytes@)
                    && 0 < bytes@.len() <= SEGMENT_MAX_LEN,
                Err(e) => Reader::spec_slice_from(self@, addr) == Err::<Seq<u8>, Error>(e),
            },
    {
        proof {
            use_type_invariant(self);
        }
        let number = addr.segment_number() as usize;
        let offset = addr.segment_offset() as usize;
        match &self.segments[number] {
            None => Err(Error::SegmentUnset),
            Some(data) => {
                if offset >= data.len() {
                    Err(Error::AddressOutOfRange)
                } else {
                    Ok(tail(data.as_slice(), offset))
                }
            },
        }
    }

    /// Reads the record at `addr`.
    pub fn read<T: ReadSegment>(&self, addr: VirtAddr<T>) -> (r: Result<T, Error>)
        ensures
            r == Reader::spec_read(self@, addr),
    {
        let bytes = self.slice_from(addr.0)?;
        if bytes.len() < T::size() as usize {
            Err(Error::Truncated)
        } else {
            Ok(T::read(bytes))
        }
    }

    /// Reads `count` records that lie one after the other from `addr` on.
    pub fn read_slice<T: ReadSegment>(&self, addr: VirtAddr<T>, count: usize) -> (r: Result<
        Vec<T>,
        Error,
    >)
        ensures
            match r {
                Ok(items) => Reader::spec_read_slice(self@, addr, count as nat) == Ok::<Seq<T>, Error>(
                    items@,
                ),
                Err(e) => Reader::spec_read_slice(self@, addr, count as nat) == Err::<
                    Seq<T>,
                    Error,
                >(e),
            },
    {
        let bytes = self.slice_from(addr.0)?;
        let size = T::size() as usize;
        let fits = match count.checked_mul(size) {
            Some(needed) => bytes.len() >= needed,
            None => false,
        };
        if !fits {
            return Err(Error::Truncated);
        }
        let mut items: Vec<T> = Vec::new();
        let mut i: usize = 0;
        while i < count
            invariant
                i <= count,
                size == T::spec_size(),
                count * size <= bytes@.len() <= SEGMENT_MAX_LEN,
                items@.len() == i,
                forall|j: int|
                    0 <= j < i ==> #[trigger] items@[j] == T::spec_read(
                        bytes@.skip(j * T::spec_size()),
                    ),
            decreases count - i,
        {
            assert(0 <= i * size && i * size + size <= count * size) by (nonlinear_arith)
                requires
                    i < count,
            ;
            let at = i * size;
            let item = T::read(tail(bytes, at));
            items.push(item);
            i += 1;
        }
        assert(items@ =~= Seq::new(
            count as nat,
            |i: int| T::spec_read(bytes@.skip(i * T::spec_size())),
        ));
        Ok(items)
    }

    /// Reads a table of `count` addresses at `addr`, and the record behind
    /// each of them.
    pub fn ptr_slice_iter<T: ReadSegment>(&self, addr: VirtAddr<VirtAddr<T>>, count: usize) -> (r:
        Result<Vec<T>, Error>)
        ensures
            match r {
                Ok(items) => Reader::spec_ptr_slice(self@, addr, count as nat) == Ok::<Seq<T>, Error>(
                    items@,
                ),
                Err(e) => Reader::spec_ptr_slice(self@, addr, count as nat) == Err::<
                    Seq<T>,
                    Error,
                >(e),
            },
    {
        let addrs = self.read_slice(addr, count)?;
        let ghost results = Reader::spec_read_results(self@, addrs@);
        let mut items: Vec<T> = Vec::new();
        let mut i: usize = 0;
        while i < addrs.len()
            invariant
                i <= addrs@.len(),
                Reader::spec_read_slice(self@, addr, count as nat) == Ok::<
                    Seq<VirtAddr<T>>,
                    Error,
                >(addrs@),
                results == Reader::spec_read_results(self@, addrs@),
                items@.len() == i,
                forall|j: int| 0 <= j < i ==> #[trigger] results[j] == Ok::<T, Error>(items@[j]),
            decreases addrs@.len() - i,
        {
            match self.read(addrs[i]) {
                Ok(item) => {
                    items.push(item);
                },
                Err(e) => {
                    proof {
                        lemma_collect_err(results, i as int, e);
                    }
                    return Err(e);
                },
            }
            i += 1;
        }
        proof {
            lemma_collect_ok(results, items@);
        }
        Ok(items)
    }
}

/// The table has 16 slots.
pub proof fn lemma_sixteen_slots(reader: Reader)
    ensures
        reader@.len() == 16,
{
}

/// Resolving an address inside a loaded buffer gives the bytes of the buffer
/// from the offset of the address on: the first byte of the result is the
/// byte that the buffer holds at that offset, and so on to the end of the
/// buffer.
pub proof fn lemma_resolves_to_loaded_bytes(segments: Segments, addr: RawVirtAddr, data: Seq<u8>)
    requires
        segments[addr.spec_segment_number() as int] == Some(data),
        addr.spec_segment_offset() < data.len(),
    ensures
        Reader::spec_slice_from(segments, addr) is Ok,
        Reader::spec_slice_from(segments, addr).unwrap().len() == data.len()
            - addr.spec_segment_offset(),
        Reader::spec_slice_from(segments, addr).unwrap()[0]
            == data[addr.spec_segment_offset() as int],
        forall|i: int|
            0 <= i < data.len() - addr.spec_segment_offset() ==> #[trigger] Reader::spec_slice_from(
                segments,
                addr,
            ).unwrap()[i] == data[addr.spec_segment_offset() + i],
{
}

/// An address in a segment that was never loaded does not resolve, and
/// nothing can be read at it: every read fails with `SegmentUnset`.
pub proof fn lemma_unset_segment_fails<T: ReadSegment>(
    segments: Segments,
    addr: RawVirtAddr,
    count: nat,
)
    requires
        segments[addr.spec_segment_number() as int] is None,
    ensures
        Reader::spec_slice_from(segments, addr) == Err::<Seq<u8>, Error>(Error::SegmentUnset),
        Reader::spec_read::<T>(segments, VirtAddr(addr, PhantomData)) == Err::<T, Error>(
            Error::SegmentUnset,
        ),
        Reader::spec_read_slice::<T>(segments, VirtAddr(addr, PhantomData), count) == Err::<
            Seq<T>,
            Error,
        >(Error::SegmentUnset),
        Reader::spec_ptr_slice::<T>(segments, VirtAddr(addr, PhantomData), count) == Err::<
            Seq<T>,
            Error,
        >(Error::SegmentUnset),
{
}

/// Sixteen slots, none of them loaded.
fn empty_slots() -> (segments: Vec<Option<Vec<u8>>>)
    ensures
        segments@.len() == 16,
        forall|i: int| 0 <= i < 16 ==> segments@[i] is None,
{
    let mut segments: Vec<Option<Vec<u8>>> = Vec::new();
    let mut i: usize = 0;
    while i < 16
        invariant
            i <= 16,
            segments@.len() == i,
            forall|j: int| 0 <= j < i ==> segments@[j] is None,
        decreases 16 - i,
    {
        segments.push(None);
        i += 1;
    }
    segments
}

impl ReadSegment for i16 {
    open spec fn spec_size() -> nat {
        2
    }

    open spec fn spec_read(bytes: Seq<u8>) -> i16 {
        be_i16(bytes, 0)
    }

    fn size() -> (n: u32) {
        2
    }

    fn read(bytes: &[u8]) -> (r: i16) {
        i16_at(bytes, 0)
    }
}

impl ReadSegment for u64 {
    open spec fn spec_size() -> nat {
        8
    }

    open spec fn spec_read(bytes: Seq<u8>) -> u64 {
        be_u64(bytes, 0)
    }

    fn size() -> (n: u32) {
        8
    }

    fn read(bytes: &[u8]) -> (r: u64) {
        u64_at(bytes, 0)
    }
}

impl ReadSegment for RawVirtAddr {
    open spec fn spec_size() -> nat {
        4
    }

    open spec fn spec_read(bytes: Seq<u8>) -> RawVirtAddr {
        RawVirtAddr(be_u32(bytes, 0))
    }

    fn size() -> (n: u32) {
        4
    }

    fn read(bytes: &[u8]) -> (r: RawVirtAddr) {
        RawVirtAddr(u32_at(bytes, 0))
    }
}

impl<T> ReadSegment for VirtAddr<T> {
    open spec fn spec_size() -> nat {
        4
    }

    open spec fn spec_read(bytes: Seq<u8>) -> VirtAddr<T> {
        VirtAddr(RawVirtAddr(be_u32(bytes, 0)), PhantomData)
    }

    fn size() -> (n: u32) {
        4
    }

    fn read(bytes: &[u8]) -> (r: VirtAddr<T>) {
        VirtAddr(RawVirtAddr(u32_at(bytes, 0)), PhantomData)
    }
}

/// The head of a skeleton: a table of limb addresses, and how many it holds.
#[derive(Clone, Copy, Debug, PartialEq)]
pub struct SkeletonHeader {
    pub limbs: VirtAddr<VirtAddr<SkinLimb>>,
    pub limb_count: u8,
}

impl ReadSegment for SkeletonHeader {
    open spec fn spec_size() -> nat {
        5
    }

    open spec fn spec_read(bytes: Seq<u8>) -> SkeletonHeader {
        SkeletonHeader {
            limbs: VirtAddr(RawVirtAddr(be_u32(bytes, 0)), PhantomData),
            limb_count: bytes[4],
        }
    }

    fn size() -> (n: u32) {
        5
    }

    fn read(bytes: &[u8]) -> (r: SkeletonHeader) {
        SkeletonHeader {
            limbs: VirtAddr(RawVirtAddr(u32_at(bytes, 0)), PhantomData),
            limb_count: bytes[4],
        }
    }
}

/// One limb as the image stores it. `child` and `sibling` are limb indices,
/// 0xFF for none. What `segment` points at depends on `segment_type`: a display
/// list where the type is normal, a `SkinAnimatedLimbData` where it is
/// animated, and nothing otherwise.
#[derive(Clone, Copy, Debug, PartialEq)]
pub struct SkinLimb {
    pub joint_pos: [i16; 3],
    pub child: u8,
    pub sibling: u8,
    pub segment_type: i32,
    pub segment: RawVirtAddr,
}

impl ReadSegment for SkinLimb {
    open spec fn spec_size() -> nat {
        0x10
    }

    open spec fn spec_read(bytes: Seq<u8>) -> SkinLimb {
        SkinLimb {
            joint_pos: [be_i16(bytes, 0), be_i16(bytes, 2), be_i16(bytes, 4)],
            child: bytes[6],
            sibling: bytes[7],
            segment_type: be_i32(bytes, 8),
            segment: RawVirtAddr(be_u32(bytes, 12)),
        }
    }

    fn size() -> (n: u32) {
        0x10
    }

    fn read(bytes: &[u8]) -> (r: SkinLimb) {
        SkinLimb {
            joint_pos: [i16_at(bytes, 0), i16_at(bytes, 2), i16_at(bytes, 4)],
            child: bytes[6],
            sibling: bytes[7],
            segment_type: i32_at(bytes, 8),
            segment: RawVirtAddr(u32_at(bytes, 12)),
        }
    }
}

/// What an animated limb points at: the size of its vertex buffer, a run of
/// modifications, and the display list that draws from the buffer.
#[derive(Clone, Copy, Debug, PartialEq)]
pub struct SkinAnimatedLimbData {
    pub total_vtx_count: u16,
    pub limb_modif_count: u16,
    pub limb_modifications: VirtAddr<SkinLimbModif>,
    pub dlist: RawVirtAddr,
}

impl ReadSegment for SkinAnimatedLimbData {
    open spec fn spec_size() -> nat {
        0xC
    }

    open spec fn spec_read(bytes: Seq<u8>) -> SkinAnimatedLimbData {
        SkinAnimatedLimbData {
            total_vtx_count: be_u16(bytes, 0),
            limb_modif_count: be_u16(bytes, 2),
            limb_modifications: VirtAddr(RawVirtAddr(be_u32(bytes, 4)), PhantomData),
            dlist: RawVirtAddr(be_u32(bytes, 8)),
        }
    }

    fn size() -> (n: u32) {
        0xC
    }

    fn read(bytes: &[u8]) -> (r: SkinAnimatedLimbData) {
        SkinAnimatedLimbData {
            total_vtx_count: u16_at(bytes, 0),
            limb_modif_count: u16_at(bytes, 2),
            limb_modifications: VirtAddr(RawVirtAddr(u32_at(bytes, 4)), PhantomData),
            dlist: RawVirtAddr(u32_at(bytes, 8)),
        }
    }
}

/// A vertex as a display list loads it: position, a flag, texture
/// coordinates, and a colour or normal.
#[derive(Clone, Copy, Debug, PartialEq)]
pub struct Vtx {
    pub pos: [i16; 3],
    pub flag: i16,
    pub tpos: [i16; 2],
    pub cn: [u8; 4],
}

impl Vtx {
    /// The vertex that a cleared buffer holds: every field zero.
    pub open spec fn spec_zero() -> Vtx {
        Vtx { pos: [0i16, 0i16, 0i16], flag: 0, tpos: [0i16, 0i16], cn: [0u8, 0u8, 0u8, 0u8] }
    }

    /// The 16 bytes that store the vertex.
    pub open spec fn spec_bytes(&self) -> Seq<u8> {
        i16_be_bytes(self.pos[0]) + i16_be_bytes(self.pos[1]) + i16_be_bytes(self.pos[2])
            + i16_be_bytes(self.flag) + i16_be_bytes(self.tpos[0]) + i16_be_bytes(self.tpos[1])
            + self.cn@
    }

    /// A vertex with every field zero.
    pub fn zero() -> (r: Vtx)
        ensures
            r == Vtx::spec_zero(),
    {
        Vtx { pos: [0i16, 0i16, 0i16], flag: 0, tpos: [0i16, 0i16], cn: [0u8, 0u8, 0u8, 0u8] }
    }

    /// Appends the 16 bytes of the vertex to `w`.
    pub fn write(&self, w: &mut Vec<u8>)
        ensures
            final(w)@ == old(w)@ + self.spec_bytes(),
    {
        push_i16(w, self.pos[0]);
        push_i16(w, self.pos[1]);
        push_i16(w, self.pos[2]);
        push_i16(w, self.flag);
        push_i16(w, self.tpos[0]);
        push_i16(w, self.tpos[1]);
        w.push(self.cn[0]);
        w.push(self.cn[1]);
        w.push(self.cn[2]);
        w.push(self.cn[3]);
        assert(w@ =~= old(w)@ + self.spec_bytes());
    }
}

impl ReadSegment for Vtx {
    open spec fn spec_size() -> nat {
        0x10
    }

    open spec fn spec_read(bytes: Seq<u8>) -> Vtx {
        Vtx {
            pos: [be_i16(bytes, 0), be_i16(bytes, 2), be_i16(bytes, 4)],
            flag: be_i16(bytes, 6),
            tpos: [be_i16(bytes, 8), be_i16(bytes, 10)],
            cn: [bytes[12], bytes[13], bytes[14], bytes[15]],
        }
    }

    fn size() -> (n: u32) {
        0x10
    }

    fn read(bytes: &[u8]) -> (r: Vtx) {
        Vtx {
            pos: [i16_at(bytes, 0), i16_at(bytes, 2), i16_at(bytes, 4)],
            flag: i16_at(bytes, 6),
            tpos: [i16_at(bytes, 8), i16_at(bytes, 10)],
            cn: [bytes[12], bytes[13], bytes[14], bytes[15]],
        }
    }
}

/// A vertex that was written with `write` reads back as itself, whatever
/// follows its 16 bytes.
pub proof fn lemma_vtx_round_trip(v: Vtx, rest: Seq<u8>)
    ensures
        v.spec_bytes().len() == 16,
        Vtx::spec_read(v.spec_bytes() + rest) == v,
{
    let bytes = v.spec_bytes() + rest;
    let r = Vtx::spec_read(bytes);
    assert(r.pos =~= v.pos);
    assert(r.tpos =~= v.tpos);
    assert(r.cn =~= v.cn);
}

/// One modification of an animated limb: a run of vertices of the buffer, and
/// the run of transformations that gives them their position.
#[derive(Clone, Copy, Debug, PartialEq)]
pub struct SkinLimbModif {
    pub vtx_count: u16,
    pub transform_count: u16,
    pub unk_4: u16,
    pub skin_vertices: VirtAddr<SkinVertex>,
    pub limb_transformations: VirtAddr<SkinTransformation>,
}

impl ReadSegment for SkinLimbModif {
    open spec fn spec_size() -> nat {
        0x10
    }

    /// Two bytes of padding follow `unk_4`.
    open spec fn spec_read(bytes: Seq<u8>) -> SkinLimbModif {
        SkinLimbModif {
            vtx_count: be_u16(bytes, 0),
            transform_count: be_u16(bytes, 2),
            unk_4: be_u16(bytes, 4),
            skin_vertices: VirtAddr(RawVirtAddr(be_u32(bytes, 8)), PhantomData),
            limb_transformations: VirtAddr(RawVirtAddr(be_u32(bytes, 12)), PhantomData),
        }
    }

    fn size() -> (n: u32) {
        0x10
    }

    fn read(bytes: &[u8]) -> (r: SkinLimbModif) {
        SkinLimbModif {
            vtx_count: u16_at(bytes, 0),
            transform_count: u16_at(bytes, 2),
            unk_4: u16_at(bytes, 4),
            skin_vertices: VirtAddr(RawVirtAddr(u32_at(bytes, 8)), PhantomData),
            limb_transformations: VirtAddr(RawVirtAddr(u32_at(bytes, 12)), PhantomData),
        }
    }
}

/// An offset relative to a limb, with a scale in hundredths.
#[derive(Clone, Copy, Debug, PartialEq)]
pub struct SkinTransformation {
    pub limb_index: u8,
    pub x: i16,
    pub y: i16,
    pub z: i16,
    pub scale: u8,
}

impl ReadSegment for SkinTransformation {
    open spec fn spec_size() -> nat {
        0xA
    }

    /// One byte of padding follows `limb_index`, and one follows `scale`.
    open spec fn spec_read(bytes: Seq<u8>) -> SkinTransformation {
        SkinTransformation {
            limb_index: bytes[0],
            x: be_i16(bytes, 2),
            y: be_i16(bytes, 4),
            z: be_i16(bytes, 6),
            scale: bytes[8],
        }
    }

    fn size() -> (n: u32) {
        0xA
    }

    fn read(bytes: &[u8]) -> (r: SkinTransformation) {
        SkinTransformation {
            limb_index: bytes[0],
            x: i16_at(bytes, 2),
            y: i16_at(bytes, 4),
            z: i16_at(bytes, 6),
            scale: bytes[8],
        }
    }
}

/// A vertex of an animated limb's buffer, by its index, with its texture
/// coordinates, normal and alpha.
#[derive(Clone, Copy, Debug, PartialEq)]
pub struct SkinVertex {
    pub index: u16,
    pub s: i16,
    pub t: i16,
    pub norm_x: i8,
    pub norm_y: i8,
    pub norm_z: i8,
    pub alpha: u8,
}

impl ReadSegment for SkinVertex {
    open spec fn spec_size() -> nat {
        0xA
    }

    open spec fn spec_read(bytes: Seq<u8>) -> SkinVertex {
        SkinVertex {
            index: be_u16(bytes, 0),
            s: be_i16(bytes, 2),
            t: be_i16(bytes, 4),
            norm_x: signed8(bytes[6]),
            norm_y: signed8(bytes[7]),
            norm_z: signed8(bytes[8]),
            alpha: bytes[9],
        }
    }

    fn size() -> (n: u32) {
        0xA
    }

    fn read(bytes: &[u8]) -> (r: SkinVertex) {
        SkinVertex {
            index: u16_at(bytes, 0),
            s: i16_at(bytes, 2),
            t: i16_at(bytes, 4),
            norm_x: i8_at(bytes, 6),
            norm_y: i8_at(bytes, 7),
            norm_z: i8_at(bytes, 8),
            alpha: bytes[9],
        }
    }
}

/// What every kind of animation header starts with.
#[derive(Clone, Copy, Debug, PartialEq)]
pub struct AnimationHeaderCommon {
    pub frame_count: i16,
}

impl ReadSegment for AnimationHeaderCommon {
    open spec fn spec_size() -> nat {
        4
    }

    /// Two bytes of padding follow `frame_count`.
    open spec fn spec_read(bytes: Seq<u8>) -> AnimationHeaderCommon {
        AnimationHeaderCommon { frame_count: be_i16(bytes, 0) }
    }

    fn size() -> (n: u32) {
        4
    }

    fn read(bytes: &[u8]) -> (r: AnimationHeaderCommon) {
        AnimationHeaderCommon { frame_count: i16_at(bytes, 0) }
    }
}

/// The head of an animation: the number of frames, the table of frame data,
/// the table of joint indices, and the index from which on an entry of the
/// frame data changes with the frame.
#[derive(Clone, Copy, Debug, PartialEq)]
pub struct AnimationHeader {
    pub common: AnimationHeaderCommon,
    pub frame_data: VirtAddr<i16>,
    pub joint_indicies: VirtAddr<JointIndex>,
    pub static_index_max: u16,
}

impl ReadSegment for AnimationHeader {
    open spec fn spec_size() -> nat {
        0x10
    }

    /// Two bytes of padding follow `static_index_max`.
    open spec fn spec_read(bytes: Seq<u8>) -> AnimationHeader {
        AnimationHeader {
            common: AnimationHeaderCommon::spec_read(bytes),
            frame_data: VirtAddr(RawVirtAddr(be_u32(bytes, 4)), PhantomData),
            joint_indicies: VirtAddr(RawVirtAddr(be_u32(bytes, 8)), PhantomData),
            static_index_max: be_u16(bytes, 12),
        }
    }

    fn size() -> (n: u32) {
        0x10
    }

    fn read(bytes: &[u8]) -> (r: AnimationHeader) {
        AnimationHeader {
            common: AnimationHeaderCommon::read(bytes),
            frame_data: VirtAddr(RawVirtAddr(u32_at(bytes, 4)), PhantomData),
            joint_indicies: VirtAddr(RawVirtAddr(u32_at(bytes, 8)), PhantomData),
            static_index_max: u16_at(bytes, 12),
        }
    }
}

/// For one limb, where in the frame data each of its three angles stands.
#[derive(Clone, Copy, Debug, PartialEq)]
pub struct JointIndex {
    pub x: u16,
    pub y: u16,
    pub z: u16,
}

impl ReadSegment for JointIndex {
    open spec fn spec_size() -> nat {
        6
    }

    open spec fn spec_read(bytes: Seq<u8>) -> JointIndex {
        JointIndex { x: be_u16(bytes, 0), y: be_u16(bytes, 2), z: be_u16(bytes, 4) }
    }

    fn size() -> (n: u32) {
        6
    }

    fn read(bytes: &[u8]) -> (r: JointIndex) {
        JointIndex { x: u16_at(bytes, 0), y: u16_at(bytes, 2), z: u16_at(bytes, 4) }
    }
}

} // verus!
