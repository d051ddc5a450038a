//! Big-endian integers, by way of the little-endian ones.

use vstd::prelude::*;
use vstd::bytes::{
    lemma_auto_spec_u64_to_from_le_bytes, spec_u64_from_le_bytes, spec_u64_to_le_bytes, u64_from_le_bytes,
    u64_to_le_bytes,
};

verus! {

/// The eight bytes of a 64-bit value, the most significant first.
pub open spec fn spec_u64_to_be_bytes(x: u64) -> Seq<u8> {
    spec_u64_to_le_bytes(x).reverse()
}

/// The 64-bit value of eight bytes, the most significant first.
pub open spec fn spec_u64_from_be_bytes(bytes: Seq<u8>) -> u64 {
    spec_u64_from_le_bytes(bytes.reverse())
}

/// The bytes in reverse order.
pub fn reversed(bytes: &[u8]) -> (out: Vec<u8>)
    ensures
        out@ == bytes@.reverse(),
{
    let mut out: Vec<u8> = Vec::new();
    let n = bytes.len();
    let mut i: usize = 0;
    while i < n
        invariant
            n == bytes@.len(),
            i <= n,
            out@.len() == i,
            forall|j: int| 0 <= j < i ==> out@[j] == bytes@[n - 1 - j],
        decreases n - i,
    {
        out.push(bytes[n - 1 - i]);
        i += 1;
    }
    assert(out@ =~= bytes@.reverse());
    out
}

pub fn u64_to_be_bytes(x: u64) -> (bytes: Vec<u8>)
    ensures
        bytes@ == spec_u64_to_be_bytes(x),
        bytes@.len() == 8,
{
    proof {
        lemma_auto_spec_u64_to_from_le_bytes();
    }
    let le = u64_to_le_bytes(x);
    reversed(le.as_slice())
}

pub fn u64_from_be_bytes(bytes: &[u8]) -> (x: u64)
    requires
        bytes@.len() == 8,
    ensures
        x == spec_u64_from_be_bytes(bytes@),
{
    let le = reversed(bytes);
    u64_from_le_bytes(le.as_slice())
}

} // verus!
