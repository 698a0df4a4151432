//! Fixed-width integer encodings written into placeholder ranges.
//!
//! Header fields are 2-byte big-endian integers. Timestamps are 4-byte
//! integers whose endianness is a per-chain policy: one chain family
//! encodes most-significant-byte first, the other least-significant-byte
//! first. The difference is load-bearing and kept separate here.

use vstd::prelude::*;

verus! {

/// The 2-byte big-endian encoding of a value below 65536.
pub open spec fn u16_be_bytes(v: int) -> Seq<u8> {
    seq![(v / 256) as u8, (v % 256) as u8]
}

/// The 4-byte big-endian encoding of a 32-bit value.
pub open spec fn u32_be_bytes(v: u32) -> Seq<u8> {
    seq![
        (v / 0x1000000) as u8,
        ((v / 0x10000) % 256) as u8,
        ((v / 256) % 256) as u8,
        (v % 256) as u8,
    ]
}

/// The 4-byte little-endian encoding of a 32-bit value.
pub open spec fn u32_le_bytes(v: u32) -> Seq<u8> {
    seq![
        (v % 256) as u8,
        ((v / 256) % 256) as u8,
        ((v / 0x10000) % 256) as u8,
        (v / 0x1000000) as u8,
    ]
}

/// The big-endian 2-byte integer stored at position `i`.
pub open spec fn be16_at(s: Seq<u8>, i: int) -> int {
    256 * s[i] + s[i + 1]
}

} // verus!
