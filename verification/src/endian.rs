//! Signed 32-bit integers as four little-endian bytes, the layout of every
//! header field of a frame.
//!
//! The conversions themselves are done by the `podio` crate. This module
//! states, as plain arithmetic on the bytes, what they produce.

use podio::{LittleEndian, ReadPodExt, WritePodExt};
use vstd::prelude::*;

verus! {

/// The bit pattern of `v` read as an unsigned number (two's complement).
pub open spec fn unsigned(v: i32) -> int {
    if v < 0 {
        v + 0x1_0000_0000
    } else {
        v as int
    }
}

/// The four bytes that stand for `v` on the wire, least significant first.
pub open spec fn le_bytes(v: i32) -> Seq<u8> {
    let u = unsigned(v);
    seq![
        (u % 0x100) as u8,
        (u / 0x100 % 0x100) as u8,
        (u / 0x1_0000 % 0x100) as u8,
        (u / 0x100_0000 % 0x100) as u8,
    ]
}

/// The integer that the first four bytes of `bytes` stand for.
pub open spec fn le_value(bytes: Seq<u8>) -> i32
    recommends
        bytes.len() >= 4,
{
    let u = bytes[0] + bytes[1] * 0x100 + bytes[2] * 0x1_0000 + bytes[3] * 0x100_0000;
    if u >= 0x8000_0000 {
        (u - 0x1_0000_0000) as i32
    } else {
        u as i32
    }
}

/// Reading back the bytes of an integer gives the integer.
pub proof fn lemma_le_value_of_bytes(v: i32)
    ensures
        le_bytes(v).len() == 4,
        le_value(le_bytes(v)) == v,
{
}

/// Trusted: `podio::WritePodExt::write_i32::<LittleEndian>` on a `Vec<u8>`.
///
/// podio shifts the value right by 0, 8, 16 and 24 bits, keeps the low byte
/// of each and hands the four bytes to `write_all`. For a vector `write_all`
/// appends them and reports success. The contract claims exactly that: the
/// call succeeds and the vector grows by `le_bytes(value)`.
#[verifier::external_body]
pub(crate) fn write_i32_le(buf: &mut Vec<u8>, value: i32) -> (r: Result<(), std::io::Error>)
    ensures
        r is Ok,
        final(buf)@ == old(buf)@ + le_bytes(value),
{
    buf.write_i32::<LittleEndian>(value)
}

/// Trusted: `podio::ReadPodExt::read_i32::<LittleEndian>` on a byte slice.
///
/// podio fills a four-byte buffer from the reader and fails when the reader
/// runs dry first; otherwise it combines the bytes, the first one least
/// significant. A slice hands out its bytes in order. The contract claims
/// that a slice of at least four bytes yields `le_value` of it, and that a
/// shorter one yields an error.
#[verifier::external_body]
pub(crate) fn read_i32_le(bytes: &[u8]) -> (r: Result<i32, std::io::Error>)
    ensures
        match r {
            Ok(v) => bytes@.len() >= 4 && v == le_value(bytes@),
            Err(_) => bytes@.len() < 4,
        },
{
    let mut rest = bytes;
    rest.read_i32::<LittleEndian>()
}

} // verus!
