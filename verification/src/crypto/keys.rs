use vstd::prelude::*;
use super::identity::Identity;

verus! {

/// The 32-byte digest that commits to a batch: the root of the Merkle
/// vector built over the batch's leaves.
#[derive(Clone, Copy, Debug, PartialEq, Eq, PartialOrd, Ord, Hash)]
pub struct Root {
    pub bytes: [u8; 32],
}

impl Root {
    pub fn from_bytes(bytes: [u8; 32]) -> (root: Root)
        ensures
            root.bytes == bytes,
    {
        Root { bytes }
    }

    /// Whether the two digests are the same.
    pub fn same(&self, other: &Root) -> (same: bool)
        ensures
            same == (*self == *other),
    {
        let mut i: usize = 0;
        while i < 32
            invariant
                i <= 32,
                forall|j: int| 0 <= j < i ==> self.bytes@[j] == other.bytes@[j],
            decreases 32 - i,
        {
            if self.bytes[i] != other.bytes[i] {
                return false;
            }
            i += 1;
        }
        assert(self.bytes =~= other.bytes);
        true
    }
}

/// Public half of a participant's keys: its identity, and the key material
/// in serialised form. The library orders and finds key cards by identity
/// and never looks inside the material.
#[derive(Clone, Debug, PartialEq, Eq)]
pub struct KeyCard {
    pub identity: Identity,
    pub material: Vec<u8>,
}

impl KeyCard {
    pub fn new(identity: Identity, material: Vec<u8>) -> (keycard: KeyCard)
        ensures
            keycard.identity == identity,
            keycard.material == material,
    {
        KeyCard { identity, material }
    }

    pub fn identity(&self) -> (identity: Identity)
        ensures
            identity == self.identity,
    {
        self.identity
    }
}

/// An individual signature in serialised form.
#[derive(Clone, Debug, PartialEq, Eq)]
pub struct Signature {
    pub bytes: Vec<u8>,
}

/// A multi-signature, a single share or an aggregate of shares, in
/// serialised form.
#[derive(Clone, Debug, PartialEq, Eq)]
pub struct MultiSignature {
    pub bytes: Vec<u8>,
}

} // verus!
