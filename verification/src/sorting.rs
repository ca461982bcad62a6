//! Sorting of values that a rank puts in a strict order.

use vstd::prelude::*;
use crate::crypto::Identity;

verus! {

/// A value with a place in a total order.
pub trait Ranked: Copy {
    /// The place of the value: values are ordered by it.
    spec fn place(&self) -> int;

    /// Whether `self` comes strictly before `other`.
    fn before(&self, other: &Self) -> (before: bool)
        ensures
            before == (self.place() < other.place()),
    ;
}

impl Ranked for u64 {
    open spec fn place(&self) -> int {
        *self as int
    }

    fn before(&self, other: &u64) -> (before: bool) {
        *self < *other
    }
}

impl Ranked for Identity {
    open spec fn place(&self) -> int {
        self.rank() as int
    }

    fn before(&self, other: &Identity) -> (before: bool) {
        self.precedes(other)
    }
}

/// No two values of the sequence have the same place.
pub open spec fn distinct<T: Ranked>(values: Seq<T>) -> bool {
    forall|a: int, b: int|
        0 <= a < values.len() && 0 <= b < values.len() && a != b ==> values[a].place()
            != values[b].place()
}

/// The places grow strictly along the sequence.
pub open spec fn rising<T: Ranked>(values: Seq<T>) -> bool {
    forall|a: int, b: int| 0 <= a < b < values.len() ==> values[a].place() < values[b].place()
}

/// Every value of `part` is a value of `whole`.
pub open spec fn within<T>(part: Seq<T>, whole: Seq<T>) -> bool {
    forall|i: int| 0 <= i < part.len() ==> whole.contains(#[trigger] part[i])
}

/// Puts values of distinct places in rising order.
pub fn sort_distinct<T: Ranked>(values: &mut Vec<T>)
    requires
        distinct(old(values)@),
    ensures
        final(values)@.len() == old(values)@.len(),
        rising(final(values)@),
        within(final(values)@, old(values)@),
        within(old(values)@, final(values)@),
{
    let ghost given = values@;
    let n = values.len();
    // `from[i]` is where the value now at `i` was at first, `to[k]` where the
    // value first at `k` is now.
    let ghost mut from: Seq<int> = Seq::new(n as nat, |i: int| i);
    let ghost mut to: Seq<int> = Seq::new(n as nat, |i: int| i);
    let mut i: usize = 1;
    while i < n
        invariant
            1 <= i,
            n == values.len(),
            n == given.len(),
            distinct(given),
            from.len() == n,
            to.len() == n,
            forall|x: int| 0 <= x < n ==> 0 <= #[trigger] from[x] < n && to[from[x]] == x,
            forall|x: int| 0 <= x < n ==> 0 <= #[trigger] to[x] < n && from[to[x]] == x,
            forall|x: int| 0 <= x < n ==> (#[trigger] values@[x]) == given[from[x]],
            forall|a: int, b: int|
                0 <= a < b < i && b < n ==> values@[a].place() < values@[b].place(),
        decreases n - i,
    {
        let mut j: usize = i;
        while j > 0 && values[j].before(&values[j - 1])
            invariant
                j <= i < n,
                n == values.len(),
                n == given.len(),
                distinct(given),
                from.len() == n,
                to.len() == n,
                forall|x: int| 0 <= x < n ==> 0 <= #[trigger] from[x] < n && to[from[x]] == x,
                forall|x: int| 0 <= x < n ==> 0 <= #[trigger] to[x] < n && from[to[x]] == x,
                forall|x: int| 0 <= x < n ==> (#[trigger] values@[x]) == given[from[x]],
                forall|a: int, b: int|
                    0 <= a < b <= i && a != j && b != j ==> values@[a].place() < values@[b].place(),
                forall|b: int| j < b <= i ==> values@[j as int].place() < values@[b].place(),
            decreases j,
        {
            let lower = values[j - 1];
            let upper = values[j];
            let ghost before = values@;
            values[j - 1] = upper;
            values[j] = lower;
            proof {
                let f_low = from[j - 1];
                let f_up = from[j as int];
                from = from.update(j - 1, f_up).update(j as int, f_low);
                to = to.update(f_up, j - 1).update(f_low, j as int);
                assert(values@ =~= before.update(j - 1, upper).update(j as int, lower));
            }
            j -= 1;
        }
        proof {
            assert forall|a: int, b: int| 0 <= a < b < i + 1 && b < n implies values@[a].place()
                < values@[b].place() by {
                if b == j && a < j {
                    // The loop stopped, so the value at `j` does not come
                    // before its left neighbour; it cannot equal it either.
                    assert(values@[j - 1] == given[from[j - 1]]);
                    assert(values@[j as int] == given[from[j as int]]);
                    assert(to[from[j - 1]] == j - 1);
                    assert(to[from[j as int]] == j);
                    assert(from[j - 1] != from[j as int]);
                    assert(values@[j - 1].place() != values@[j as int].place());
                    if a < j - 1 {
                        assert(values@[a].place() < values@[j - 1].place());
                    }
                }
            }
        }
        i += 1;
    }
    proof {
        assert forall|x: int| 0 <= x < n implies given.contains(#[trigger] values@[x]) by {
            assert(given[from[x]] == values@[x]);
        }
        assert forall|x: int| 0 <= x < n implies values@.contains(#[trigger] given[x]) by {
            assert(values@[to[x]] == given[from[to[x]]]);
        }
    }
}

} // verus!
