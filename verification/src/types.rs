//! The plain data the election logic inspects: validator identities and
//! proposal blocks.

use vstd::prelude::*;

verus! {

/// Opaque identity of a validator participating in consensus. Only equality
/// of identities matters to the election logic.
#[derive(Clone, Copy, PartialEq, Eq, Structural, Debug)]
pub struct Author {
    pub id: u64,
}

/// A proposal for one round. The election logic inspects only the round and
/// the author; the payload is carried through untouched. A block with no
/// identifiable author is never a candidate.
pub struct Block<T> {
    pub round: u64,
    pub author: Option<Author>,
    pub payload: T,
}

} // verus!
