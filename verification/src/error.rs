use vstd::prelude::*;

verus! {

/// Why a decoding step failed.
#[derive(Clone, Copy, Debug, PartialEq, Eq, Structural)]
pub enum Error {
    /// The address names a segment that holds no buffer.
    SegmentUnset,
    /// The offset of the address lies at or beyond the end of its segment's buffer.
    AddressOutOfRange,
    /// Fewer bytes remain in the segment than the record needs.
    Truncated,
    /// The top byte of an instruction word is no known opcode.
    UnknownOpcode,
}

} // verus!
