use vstd::prelude::*;

verus! {

/// Number of bytes in an identity.
pub const IDENTITY_LENGTH: usize = 32;

/// The number that a byte string denotes when read most significant byte first.
pub open spec fn big_endian(bytes: Seq<u8>) -> nat
    decreases bytes.len(),
{
    if bytes.len() == 0 {
        0
    } else {
        big_endian(bytes.drop_last()) * 256 + bytes.last() as nat
    }
}

/// Two byte strings of one length that denote the same number are the same string.
pub proof fn lemma_big_endian_injective(a: Seq<u8>, b: Seq<u8>)
    requires
        a.len() == b.len(),
        big_endian(a) == big_endian(b),
    ensures
        a == b,
    decreases a.len(),
{
    if a.len() > 0 {
        let x = big_endian(a.drop_last());
        let y = big_endian(b.drop_last());
        assert(x * 256 + a.last() as nat == y * 256 + b.last() as nat);
        assert(x == y);
        lemma_big_endian_injective(a.drop_last(), b.drop_last());
        assert(a =~= a.drop_last().push(a.last()));
        assert(b =~= b.drop_last().push(b.last()));
    } else {
        assert(a =~= b);
    }
}

/// How one identity stands to another in the canonical order.
#[derive(Clone, Copy, Debug, PartialEq, Eq, Structural)]
pub enum Order {
    Before,
    Same,
    After,
}

/// Opaque 32-byte name of a participant. Identities are ordered
/// lexicographically by their bytes.
#[derive(Clone, Copy, Debug, PartialEq, Eq, PartialOrd, Ord, Hash)]
pub struct Identity {
    pub bytes: [u8; 32],
}

impl Identity {
    /// Position of the identity in the canonical order: its bytes read as one
    /// big-endian number, which orders byte strings of equal length
    /// lexicographically.
    pub open spec fn rank(self) -> nat {
        big_endian(self.bytes@)
    }

    pub fn from_bytes(bytes: [u8; 32]) -> (identity: Identity)
        ensures
            identity.bytes == bytes,
    {
        Identity { bytes }
    }

    /// Compares two identities byte by byte, most significant first.
    pub fn compare(&self, other: &Identity) -> (order: Order)
        ensures
            order == Order::Before <==> self.rank() < other.rank(),
            order == Order::Same <==> self.rank() == other.rank(),
            order == Order::After <==> self.rank() > other.rank(),
            order == Order::Same <==> *self == *other,
    {
        let mut order = Order::Same;
        let mut i: usize = 0;
        while i < 32
            invariant
                i <= 32,
                order == Order::Same ==> self.bytes@.take(i as int) == other.bytes@.take(i as int),
                order == Order::Before ==> big_endian(self.bytes@.take(i as int)) < big_endian(
                    other.bytes@.take(i as int),
                ),
                order == Order::After ==> big_endian(self.bytes@.take(i as int)) > big_endian(
                    other.bytes@.take(i as int),
                ),
            decreases 32 - i,
        {
            let a = self.bytes[i];
            let b = other.bytes[i];
            proof {
                let s = self.bytes@.take(i + 1);
                let o = other.bytes@.take(i + 1);
                assert(s.drop_last() =~= self.bytes@.take(i as int));
                assert(o.drop_last() =~= other.bytes@.take(i as int));
                assert(s.last() == a);
                assert(o.last() == b);
                if order == Order::Same && a == b {
                    assert(s =~= o);
                }
            }
            if order == Order::Same {
                if a < b {
                    order = Order::Before;
                } else if a > b {
                    order = Order::After;
                }
            }
            i += 1;
        }
        proof {
            assert(self.bytes@.take(32) =~= self.bytes@);
            assert(other.bytes@.take(32) =~= other.bytes@);
            if order == Order::Same {
                assert(self.bytes =~= other.bytes);
            }
            if *self == *other {
                assert(self.rank() == other.rank());
            }
        }
        order
    }

    /// Whether `self` comes strictly before `other` in the canonical order.
    pub fn precedes(&self, other: &Identity) -> (before: bool)
        ensures
            before == (self.rank() < other.rank()),
    {
        match self.compare(other) {
            Order::Before => true,
            _ => false,
        }
    }

    /// Whether the two identities are the same.
    pub fn same(&self, other: &Identity) -> (same: bool)
        ensures
            same == (*self == *other),
            same == (self.rank() == other.rank()),
    {
        match self.compare(other) {
            Order::Same => true,
            _ => false,
        }
    }
}

/// Identities with the same rank are the same identity.
pub proof fn lemma_rank_injective(a: Identity, b: Identity)
    requires
        a.rank() == b.rank(),
    ensures
        a == b,
{
    lemma_big_endian_injective(a.bytes@, b.bytes@);
    assert(a.bytes =~= b.bytes);
}

} // verus!
