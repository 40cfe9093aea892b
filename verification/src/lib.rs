//! Decoders for a game client's asset files: a compressed, enciphered
//! archive container and a chunk-based actor/mesh format, with an
//! assembler that turns decoded mesh chunks into per-submesh geometry.
//! Every decoder's behavior is stated in its contract over the raw
//! bytes, and float-typed values travel as their IEEE-754 bit patterns.

/// The library's error type.
pub mod errors;
/// A positioned little-endian reader over in-memory bytes.
pub mod stream;
/// The archive's byte-stream cipher and its round-trip law.
pub mod cipher;
/// The archive container: trailer, entry table, extraction.
pub mod ipf;
/// The actor/mesh format: header, chunk stream, record decoders.
pub mod xac;
/// Mesh assembly: flat attribute columns to per-submesh geometry.
pub mod assemble;

use vstd::prelude::*;

verus! {

/// Adds two numbers; the caller guarantees the sum fits in a `u64`.
pub fn add(left: u64, right: u64) -> (r: u64)
    requires
        left + right <= u64::MAX,
    ensures
        r == left + right,
{
    left + right
}

} // verus!
