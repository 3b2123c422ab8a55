//! The deterministic 64-bit hash that drives candidate selection.
//!
//! Candidate selection walks a hash chain seeded with the round number. The
//! chain must be a pure function of its input: every participant recomputes
//! it independently and all of them must agree.

use vstd::prelude::*;

verus! {

/// The value of one step of the hash chain. The hash is computed by an
/// outside crate; the election logic depends only on it being a fixed
/// function of its input, stated here by name.
pub uninterp spec fn sip_hash_of(val: u64) -> u64;

/// A deterministic hashing function based on the SipHash 2-4 hasher.
///
/// Relies on `siphasher::sip::SipHasher24`: constructed by `new()` it is
/// keyed with the fixed all-zero key, and its `Hasher::write`/`finish`
/// compute a digest that depends on the written bytes alone (the
/// implementation reads the bytes little-endian on every platform). The
/// little-endian bytes of `val` are written, so the digest is a function of
/// `val` alone.
#[verifier::external_body]
pub fn hash(val: u64) -> (r: u64)
    ensures
        r == sip_hash_of(val),
{
    let mut hasher = siphasher::sip::SipHasher24::new();
    std::hash::Hasher::write(&mut hasher, &val.to_le_bytes());
    std::hash::Hasher::finish(&hasher)
}

} // verus!
