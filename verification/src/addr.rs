//! Virtual addresses: a segment number and an offset packed into 32 bits.

use crate::rom::ReadSegment;
use std::marker::PhantomData;
use vstd::prelude::*;
use vstd::std_specs::convert::FromSpecImpl;
use vstd::std_specs::ops::AddSpecImpl;

verus! {

/// A 32-bit virtual address. Bits 24 to 27 name the segment, bits 0 to 23 are
/// the offset inside it, and the top four bits carry no meaning here.
#[derive(Clone, Copy, Debug, Default, PartialEq, Eq, Structural)]
pub struct RawVirtAddr(pub u32);

impl RawVirtAddr {
    /// The segment number of the address: bits 24 to 27.
    pub open spec fn spec_segment_number(&self) -> u32 {
        ((self.0 / 0x100_0000) % 16) as u32
    }

    /// The offset of the address inside its segment: bits 0 to 23.
    pub open spec fn spec_segment_offset(&self) -> u32 {
        (self.0 % 0x100_0000) as u32
    }

    /// The address moved by `delta` bytes, wrapping around at 32 bits.
    pub open spec fn spec_offset(self, delta: int) -> RawVirtAddr {
        RawVirtAddr(((self.0 + delta) % 0x1_0000_0000) as u32)
    }

    /// The address with the bits of `n`.
    pub fn new(n: u32) -> (r: Self)
        ensures
            r.0 == n,
    {
        RawVirtAddr(n)
    }

    /// The segment number of the address.
    #[verifier::when_used_as_spec(spec_segment_number)]
    pub fn segment_number(&self) -> (r: u32)
        ensures
            r == self.spec_segment_number(),
            r < 16,
    {
        let n: u32 = self.0;
        assert((n << 4u32) >> 28u32 == (n / 0x100_0000u32) % 16u32) by (bit_vector);
        (n << 4) >> 28
    }

    /// The offset of the address inside its segment.
    #[verifier::when_used_as_spec(spec_segment_offset)]
    pub fn segment_offset(&self) -> (r: u32)
        ensures
            r == self.spec_segment_offset(),
            r < 0x100_0000,
    {
        let n: u32 = self.0;
        assert(n & 0x00FF_FFFFu32 == n % 0x100_0000u32) by (bit_vector);
        n & 0x00FF_FFFF
    }
}

impl std::ops::Add<i32> for RawVirtAddr {
    type Output = RawVirtAddr;

    /// Moves the address by `rhs` bytes, wrapping around at 32 bits.
    fn add(self, rhs: i32) -> (r: RawVirtAddr) {
        let sum: i64 = self.0 as i64 + rhs as i64;
        let wrapped: i64 = if sum < 0 {
            sum + 0x1_0000_0000
        } else if sum >= 0x1_0000_0000 {
            sum - 0x1_0000_0000
        } else {
            sum
        };
        RawVirtAddr(wrapped as u32)
    }
}

impl AddSpecImpl<i32> for RawVirtAddr {
    open spec fn obeys_add_spec() -> bool {
        true
    }

    open spec fn add_req(self, rhs: i32) -> bool {
        true
    }

    open spec fn add_spec(self, rhs: i32) -> RawVirtAddr {
        self.spec_offset(rhs as int)
    }
}

/// The address of a record of type `T`.
#[derive(Debug, Default, PartialEq)]
pub struct VirtAddr<T>(pub RawVirtAddr, pub PhantomData<T>);

impl<T> Clone for VirtAddr<T> {
    fn clone(&self) -> (r: Self)
        ensures
            r == *self,
    {
        VirtAddr(self.0, PhantomData)
    }
}

impl<T> Copy for VirtAddr<T> {

}

impl<T: ReadSegment> std::ops::Add<i32> for VirtAddr<T> {
    type Output = VirtAddr<T>;

    /// Moves the address forward by `rhs` records of type `T`.
    fn add(self, rhs: i32) -> (r: VirtAddr<T>) {
        let bytes: i64 = rhs as i64 * T::size() as i64;
        VirtAddr(self.0 + (bytes as i32), PhantomData)
    }
}

impl<T: ReadSegment> AddSpecImpl<i32> for VirtAddr<T> {
    open spec fn obeys_add_spec() -> bool {
        true
    }

    /// The distance in bytes fits in an `i32`.
    open spec fn add_req(self, rhs: i32) -> bool {
        i32::MIN <= rhs * T::spec_size() <= i32::MAX
    }

    open spec fn add_spec(self, rhs: i32) -> VirtAddr<T> {
        VirtAddr(self.0.spec_offset(rhs * T::spec_size()), PhantomData)
    }
}

impl<T> From<RawVirtAddr> for VirtAddr<T> {
    fn from(value: RawVirtAddr) -> (r: Self) {
        VirtAddr(value, PhantomData)
    }
}

impl<T> FromSpecImpl<RawVirtAddr> for VirtAddr<T> {
    open spec fn obeys_from_spec() -> bool {
        true
    }

    open spec fn from_spec(value: RawVirtAddr) -> Self {
        VirtAddr(value, PhantomData)
    }
}

impl<T> From<VirtAddr<T>> for RawVirtAddr {
    fn from(value: VirtAddr<T>) -> (r: Self) {
        value.0
    }
}

impl<T> FromSpecImpl<VirtAddr<T>> for RawVirtAddr {
    open spec fn obeys_from_spec() -> bool {
        true
    }

    open spec fn from_spec(value: VirtAddr<T>) -> Self {
        value.0
    }
}

} // verus!
