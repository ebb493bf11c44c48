//! Big-endian integers, as the image stores them.
//!
//! The spec functions say what a run of bytes means as a number. The
//! executable readers and writers go through `zerocopy` and `byteorder`; their
//! contracts are stated over these spec functions and are not proved here.

use vstd::prelude::*;
use zerocopy::{BigEndian, LayoutVerified, I16, I32, U16, U32, U64};

verus! {

/// The unsigned 16-bit number that the two bytes at `at` spell, high byte first.
pub open spec fn be_u16(s: Seq<u8>, at: int) -> u16 {
    (s[at] as int * 0x100 + s[at + 1] as int) as u16
}

/// The unsigned 32-bit number that the four bytes at `at` spell, high byte first.
pub open spec fn be_u32(s: Seq<u8>, at: int) -> u32 {
    (s[at] as int * 0x100_0000 + s[at + 1] as int * 0x1_0000 + s[at + 2] as int * 0x100 + s[at
        + 3] as int) as u32
}

/// The unsigned 64-bit number that the eight bytes at `at` spell, high byte first.
pub open spec fn be_u64(s: Seq<u8>, at: int) -> u64 {
    (be_u32(s, at) as int * 0x1_0000_0000 + be_u32(s, at + 4) as int) as u64
}

/// The two's complement reading of a 16-bit pattern.
pub open spec fn signed16(u: u16) -> i16 {
    if u >= 0x8000 {
        (u as int - 0x1_0000) as i16
    } else {
        u as i16
    }
}

/// The two's complement reading of a 32-bit pattern.
pub open spec fn signed32(u: u32) -> i32 {
    if u >= 0x8000_0000 {
        (u as int - 0x1_0000_0000) as i32
    } else {
        u as i32
    }
}

/// The two's complement reading of an 8-bit pattern.
pub open spec fn signed8(u: u8) -> i8 {
    if u >= 0x80 {
        (u as int - 0x100) as i8
    } else {
        u as i8
    }
}

/// The signed 16-bit number that the two bytes at `at` spell.
pub open spec fn be_i16(s: Seq<u8>, at: int) -> i16 {
    signed16(be_u16(s, at))
}

/// The signed 32-bit number that the four bytes at `at` spell.
pub open spec fn be_i32(s: Seq<u8>, at: int) -> i32 {
    signed32(be_u32(s, at))
}

/// The 16-bit pattern of a signed number.
pub open spec fn unsigned16(n: i16) -> u16 {
    if n < 0 {
        (n as int + 0x1_0000) as u16
    } else {
        n as u16
    }
}

/// The two bytes that store `n`, high byte first.
pub open spec fn i16_be_bytes(n: i16) -> Seq<u8> {
    seq![(unsigned16(n) / 0x100) as u8, (unsigned16(n) % 0x100) as u8]
}

/// Reads a `zerocopy::U16<BigEndian>` from the front of `bytes` with
/// `LayoutVerified::new_from_prefix`, and takes its value with `get`.
///
/// The type has alignment 1, so the prefix is refused exactly when fewer than
/// two bytes are there; otherwise the value is the big-endian reading of the
/// first two.
#[verifier::external_body]
pub(crate) fn read_u16(bytes: &[u8]) -> (r: Option<u16>)
    ensures
        r == (if bytes@.len() < 2 {
            None
        } else {
            Some(be_u16(bytes@, 0))
        }),
{
    let (lv, _) = LayoutVerified::<_, U16<BigEndian>>::new_from_prefix(bytes)?;
    Some(lv.read().get())
}

/// Reads a `zerocopy::I16<BigEndian>` from the front of `bytes` with
/// `LayoutVerified::new_from_prefix`, and takes its value with `get`.
///
/// `None` exactly when fewer than two bytes are there; otherwise the two's
/// complement reading of the first two bytes, high byte first.
#[verifier::external_body]
pub(crate) fn read_i16(bytes: &[u8]) -> (r: Option<i16>)
    ensures
        r == (if bytes@.len() < 2 {
            None
        } else {
            Some(be_i16(bytes@, 0))
        }),
{
    let (lv, _) = LayoutVerified::<_, I16<BigEndian>>::new_from_prefix(bytes)?;
    Some(lv.read().get())
}

/// Reads a `zerocopy::U32<BigEndian>` from the front of `bytes` with
/// `LayoutVerified::new_from_prefix`, and takes its value with `get`.
///
/// `None` exactly when fewer than four bytes are there; otherwise the
/// big-endian reading of the first four.
#[verifier::external_body]
pub(crate) fn read_u32(bytes: &[u8]) -> (r: Option<u32>)
    ensures
        r == (if bytes@.len() < 4 {
            None
        } else {
            Some(be_u32(bytes@, 0))
        }),
{
    let (lv, _) = LayoutVerified::<_, U32<BigEndian>>::new_from_prefix(bytes)?;
    Some(lv.read().get())
}

/// Reads a `zerocopy::I32<BigEndian>` from the front of `bytes` with
/// `LayoutVerified::new_from_prefix`, and takes its value with `get`.
///
/// `None` exactly when fewer than four bytes are there; otherwise the two's
/// complement reading of the first four bytes, high byte first.
#[verifier::external_body]
pub(crate) fn read_i32(bytes: &[u8]) -> (r: Option<i32>)
    ensures
        r == (if bytes@.len() < 4 {
            None
        } else {
            Some(be_i32(bytes@, 0))
        }),
{
    let (lv, _) = LayoutVerified::<_, I32<BigEndian>>::new_from_prefix(bytes)?;
    Some(lv.read().get())
}

/// Reads a `zerocopy::U64<BigEndian>` from the front of `bytes` with
/// `LayoutVerified::new_from_prefix`, and takes its value with `get`.
///
/// `None` exactly when fewer than eight bytes are there; otherwise the
/// big-endian reading of the first eight.
#[verifier::external_body]
pub(crate) fn read_u64(bytes: &[u8]) -> (r: Option<u64>)
    ensures
        r == (if bytes@.len() < 8 {
            None
        } else {
            Some(be_u64(bytes@, 0))
        }),
{
    let (lv, _) = LayoutVerified::<_, U64<BigEndian>>::new_from_prefix(bytes)?;
    Some(lv.read().get())
}

/// Stores `n` into a two-byte buffer with `byteorder`'s
/// `<BigEndian as ByteOrder>::write_i16`.
///
/// The buffer then holds the 16-bit pattern of `n`, high byte first.
#[verifier::external_body]
pub(crate) fn write_i16(n: i16) -> (r: [u8; 2])
    ensures
        r@ == i16_be_bytes(n),
{
    let mut buf = [0u8; 2];
    <byteorder::BigEndian as byteorder::ByteOrder>::write_i16(&mut buf, n);
    buf
}

/// The part of `bytes` from `at` on.
pub fn tail(bytes: &[u8], at: usize) -> (r: &[u8])
    requires
        at <= bytes@.len(),
    ensures
        r@ == bytes@.skip(at as int),
{
    &bytes[at..bytes.len()]
}

/// The unsigned 16-bit number at `at`.
pub fn u16_at(bytes: &[u8], at: usize) -> (r: u16)
    requires
        at + 2 <= bytes@.len(),
    ensures
        r == be_u16(bytes@, at as int),
{
    match read_u16(tail(bytes, at)) {
        Some(v) => v,
        None => vstd::pervasive::unreached(),
    }
}

/// The signed 16-bit number at `at`.
pub fn i16_at(bytes: &[u8], at: usize) -> (r: i16)
    requires
        at + 2 <= bytes@.len(),
    ensures
        r == be_i16(bytes@, at as int),
{
    match read_i16(tail(bytes, at)) {
        Some(v) => v,
        None => vstd::pervasive::unreached(),
    }
}

/// The unsigned 32-bit number at `at`.
pub fn u32_at(bytes: &[u8], at: usize) -> (r: u32)
    requires
        at + 4 <= bytes@.len(),
    ensures
        r == be_u32(bytes@, at as int),
{
    match read_u32(tail(bytes, at)) {
        Some(v) => v,
        None => vstd::pervasive::unreached(),
    }
}

/// The signed 32-bit number at `at`.
pub fn i32_at(bytes: &[u8], at: usize) -> (r: i32)
    requires
        at + 4 <= bytes@.len(),
    ensures
        r == be_i32(bytes@, at as int),
{
    match read_i32(tail(bytes, at)) {
        Some(v) => v,
        None => vstd::pervasive::unreached(),
    }
}

/// The unsigned 64-bit number at `at`.
pub fn u64_at(bytes: &[u8], at: usize) -> (r: u64)
    requires
        at + 8 <= bytes@.len(),
    ensures
        r == be_u64(bytes@, at as int),
{
    match read_u64(tail(bytes, at)) {
        Some(v) => v,
        None => vstd::pervasive::unreached(),
    }
}

/// The byte at `at`, read as a signed number.
pub fn i8_at(bytes: &[u8], at: usize) -> (r: i8)
    requires
        at < bytes@.len(),
    ensures
        r == signed8(bytes@[at as int]),
{
    let b: u8 = bytes[at];
    assert(b as i8 == (if b >= 0x80u8 { (b as int - 0x100) as i8 } else { b as i8 })) by (bit_vector);
    b as i8
}

/// Appends the two bytes of `n`, high byte first.
pub fn push_i16(w: &mut Vec<u8>, n: i16)
    ensures
        final(w)@ == old(w)@ + i16_be_bytes(n),
{
    let buf = write_i16(n);
    w.push(buf[0]);
    w.push(buf[1]);
}

/// Storing a signed number and reading the two bytes back gives the number.
pub proof fn lemma_i16_round_trip(n: i16)
    ensures
        i16_be_bytes(n).len() == 2,
        be_i16(i16_be_bytes(n), 0) == n,
{
}

} // verus!
