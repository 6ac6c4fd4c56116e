//! Plain values shared by the modules of the crate.

use vstd::prelude::*;

verus! {

/// A 256-bit hash (or any other opaque 32-byte value).
#[derive(Debug, Clone, Copy, PartialEq, Eq, Hash)]
pub struct H256(pub [u8; 32]);

/// Hash of a value stored in the tree, or of a node of the tree.
pub type ValueHash = H256;

/// A 256-bit unsigned integer as four 64-bit limbs, the least significant one first.
#[derive(Debug, Clone, Copy, PartialEq, Eq, Hash)]
pub struct U256(pub [u64; 4]);

/// Key of a leaf in the tree.
pub type Key = U256;

/// Ordinal number of an L1 batch.
#[derive(Debug, Clone, Copy, PartialEq, Eq, PartialOrd, Ord, Hash)]
pub struct L1BatchNumber(pub u32);

impl H256 {
    /// Checks whether two hashes consist of the same bytes.
    pub fn equals(&self, other: &H256) -> (res: bool)
        ensures
            res == (*self == *other),
    {
        let mut i: usize = 0;
        while i < 32
            invariant
                i <= 32,
                forall|j: int| 0 <= j < i ==> self.0[j] == other.0[j],
            decreases 32 - i,
        {
            if self.0[i] != other.0[i] {
                return false;
            }
            i += 1;
        }
        assert(self.0 =~= other.0);
        true
    }
}

} // verus!
