//! Multi-byte header fields read by a little-endian host.

use vstd::prelude::*;
use crate::packet::codec::{le_value, le_decode, lemma_le_value_bound, lemma_pow256_values};

verus! {

/// The value of the `n` bytes of `b` from `start` on, read by a little-endian host.
pub open spec fn host_field(b: Seq<u8>, start: int, n: int) -> nat {
    le_value(b.subrange(start, start + n))
}

/// The 16-bit field at `start`.
pub open spec fn host_u16(b: Seq<u8>, start: int) -> u16 {
    host_field(b, start, 2) as u16
}

/// The 32-bit field at `start`.
pub open spec fn host_u32(b: Seq<u8>, start: int) -> u32 {
    host_field(b, start, 4) as u32
}

/// Reads the 16-bit field at `start`.
pub fn read_u16(b: &[u8], start: usize) -> (v: u16)
    requires
        start + 2 <= b@.len(),
    ensures
        v == host_u16(b@, start as int),
        v as nat == host_field(b@, start as int, 2),
{
    let _len = b.len();
    let x = le_decode(vstd::slice::slice_subrange(b, start, start + 2));
    proof {
        lemma_le_value_bound(b@.subrange(start as int, start + 2));
        lemma_pow256_values();
    }
    x as u16
}

/// Reads the 32-bit field at `start`.
pub fn read_u32(b: &[u8], start: usize) -> (v: u32)
    requires
        start + 4 <= b@.len(),
    ensures
        v == host_u32(b@, start as int),
        v as nat == host_field(b@, start as int, 4),
{
    let _len = b.len();
    let x = le_decode(vstd::slice::slice_subrange(b, start, start + 4));
    proof {
        lemma_le_value_bound(b@.subrange(start as int, start + 4));
        lemma_pow256_values();
    }
    x as u32
}

} // verus!
