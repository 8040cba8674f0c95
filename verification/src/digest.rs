//! The BLAKE3 digest, computed by the `blake3` crate.

use vstd::prelude::*;

verus! {

/// BLAKE3 of `data` (32 bytes). Its value is whatever the `blake3` crate
/// computes; the library only relies on it being a function of `data`.
pub uninterp spec fn blake3_digest(data: Seq<u8>) -> Seq<u8>;

/// Calls `blake3::hash(data)` and returns the bytes of the resulting `Hash`.
/// Claimed: the 32 bytes are `blake3_digest` of exactly the bytes passed in.
#[verifier::external_body]
pub(crate) fn blake3_hash(data: &[u8]) -> (r: [u8; 32])
    ensures
        r@ == blake3_digest(data@),
{
    *blake3::hash(data).as_bytes()
}

} // verus!
