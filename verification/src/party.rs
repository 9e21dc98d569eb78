//! Party identifiers.
//!
//! The ledger never looks inside an identifier: it only asks whether two of
//! them name the same party.

use vstd::prelude::*;

verus! {

/// Number of bytes in a party identifier: the length of a textual account or
/// contract address.
pub const PARTY_ID_LEN: usize = 56;

/// The opaque identifier of a client or a server.
#[derive(Clone, Copy, Debug, PartialEq, Eq, Hash)]
pub struct Party {
    pub id: [u8; PARTY_ID_LEN],
}

impl Party {
    /// Wraps the bytes of an identifier.
    pub fn new(id: [u8; PARTY_ID_LEN]) -> (party: Party)
        ensures
            party.id == id,
    {
        Party { id }
    }

    /// Whether `self` and `other` name the same party, that is, whether their
    /// identifiers agree byte for byte.
    pub fn same_as(&self, other: &Party) -> (same: bool)
        ensures
            same == (*self == *other),
            same == (self.id@ == other.id@),
    {
        let mut i: usize = 0;
        while i < PARTY_ID_LEN
            invariant
                i <= PARTY_ID_LEN,
                forall|j: int| 0 <= j < i ==> self.id@[j] == other.id@[j],
            decreases PARTY_ID_LEN - i,
        {
            if self.id[i] != other.id[i] {
                return false;
            }
            i = i + 1;
        }
        proof {
            assert(self.id@ =~= other.id@);
            assert(self.id =~= other.id);
        }
        true
    }
}

} // verus!
