//! A transparent proxy library for the PostgreSQL v3 wire protocol.
//!
//! The library decodes every message that flows between a PostgreSQL client
//! (the frontend) and server (the backend), surfaces each decoded message to
//! an observer, and forwards the original bytes unchanged to the opposite
//! peer.  The protocol-phase state machine, the per-message codecs and the
//! byte-level framing all live here; the asynchronous socket engine around
//! them is ordinary unverified code.

pub mod compat;
pub mod convey;
pub mod decode;
pub mod encode;
pub mod msg;

use vstd::prelude::*;

verus! {

/// Reads a big-endian `u16` out of a two-byte array.
pub fn u16_from_big_endian(bytes: &[u8; 2]) -> (r: u16)
    ensures
        r == bytes@[0] * 0x100 + bytes@[1],
{
    (bytes[0] as u16) * 0x100 + (bytes[1] as u16)
}

/// Reads a big-endian `u32` out of a four-byte array.
pub fn u32_from_big_endian(bytes: &[u8; 4]) -> (r: u32)
    ensures
        r == bytes@[0] * 0x1000000 + bytes@[1] * 0x10000 + bytes@[2] * 0x100 + bytes@[3],
{
    (bytes[0] as u32) * 0x1000000 + (bytes[1] as u32) * 0x10000 + (bytes[2] as u32) * 0x100
        + (bytes[3] as u32)
}

} // verus!
