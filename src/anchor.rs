use vstd::prelude::*;

verus! {

/// A slot number of the ledger.
pub type Slot = u64;

/// A digest over the full account state, held as its 32 bytes.
#[derive(Clone, Copy, Debug, PartialEq, Eq)]
pub struct AccountsHash {
    pub bytes: [u8; 32],
}

impl AccountsHash {
    /// Byte-wise comparison of two digests.
    pub fn same_as(&self, other: &AccountsHash) -> (r: bool)
        ensures
            r == (*self == *other),
    {
        let mut i: usize = 0;
        while i < 32
            invariant
                i <= 32,
                forall|j: int| 0 <= j < i ==> self.bytes[j] == other.bytes[j],
            decreases 32 - i,
        {
            if self.bytes[i] != other.bytes[i] {
                return false;
            }
            i = i + 1;
        }
        assert(self.bytes =~= other.bytes);
        true
    }
}

/// A point of the ledger: a slot and the accounts hash of the state at that slot.
/// A checkpoint claims one for itself; a decoded state yields one; a verified one
/// is the trusted start of catch-up replay.
#[derive(Clone, Copy, Debug, PartialEq, Eq)]
pub struct Anchor {
    pub slot: Slot,
    pub hash: AccountsHash,
}

impl Anchor {
    /// Whether two anchors name the same slot with the same accounts hash.
    pub fn same_as(&self, other: &Anchor) -> (r: bool)
        ensures
            r == (*self == *other),
    {
        self.slot == other.slot && self.hash.same_as(&other.hash)
    }
}

} // verus!
