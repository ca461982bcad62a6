use vstd::prelude::*;
use crate::batch::Batch;
use crate::crypto::Root;

verus! {

/// No root occurs twice among the entries.
pub open spec fn roots_differ(entries: Seq<(Root, Batch)>) -> bool {
    forall|a: int, b: int|
        0 <= a < entries.len() && 0 <= b < entries.len() && a != b ==> entries[a].0 != entries[b].0
}

/// Whether one of the entries is under the root.
pub open spec fn parked(entries: Seq<(Root, Batch)>, root: Root) -> bool {
    exists|i: int| 0 <= i < entries.len() && (#[trigger] entries[i]).0 == root
}

/// The roots of the entries.
pub open spec fn roots_of(entries: Seq<(Root, Batch)>) -> Set<Root> {
    Set::new(|root: Root| parked(entries, root))
}

/// Entries under distinct roots have as many roots as there are entries.
pub proof fn lemma_roots_count(entries: Seq<(Root, Batch)>)
    requires
        roots_differ(entries),
    ensures
        roots_of(entries).finite(),
        roots_of(entries).len() == entries.len(),
    decreases entries.len(),
{
    if entries.len() == 0 {
        assert(roots_of(entries) =~= Set::<Root>::empty());
    } else {
        let front = entries.drop_last();
        let last = entries.last().0;
        lemma_roots_count(front);
        assert(!parked(front, last)) by {
            if parked(front, last) {
                let i = choose|i: int| 0 <= i < front.len() && (#[trigger] front[i]).0 == last;
                assert(entries[i].0 == entries[entries.len() - 1].0);
            }
        }
        assert(roots_of(entries) =~= roots_of(front).insert(last)) by {
            assert forall|root: Root| roots_of(entries).contains(root) implies roots_of(
                front,
            ).insert(last).contains(root) by {
                let i = choose|i: int| 0 <= i < entries.len() && (#[trigger] entries[i]).0 == root;
                if i < front.len() {
                    assert(front[i].0 == root);
                }
            }
            assert forall|root: Root| roots_of(front).insert(last).contains(root) implies roots_of(
                entries,
            ).contains(root) by {
                if root == last {
                    assert(entries[entries.len() - 1].0 == root);
                } else {
                    let i = choose|i: int| 0 <= i < front.len() && (#[trigger] front[i]).0 == root;
                    assert(entries[i].0 == root);
                }
            }
        }
    }
}

/// The batches that a server has accepted and not yet delivered, each
/// under its root.
#[derive(Debug)]
pub struct Parking {
    entries: Vec<(Root, Batch)>,
}

impl View for Parking {
    type V = Map<Root, Batch>;

    closed spec fn view(&self) -> Map<Root, Batch> {
        Map::new(
            |root: Root| parked(self.entries@, root),
            |root: Root|
                self.entries@[choose|i: int|
                    0 <= i < self.entries@.len() && (#[trigger] self.entries@[i]).0 == root].1,
        )
    }
}

impl Parking {
    /// Each root has one entry.
    #[verifier::type_invariant]
    closed spec fn well_formed(&self) -> bool {
        roots_differ(self.entries@)
    }

    /// Nothing is parked.
    pub fn new() -> (parking: Parking)
        ensures
            parking@ == Map::<Root, Batch>::empty(),
    {
        let parking = Parking { entries: Vec::new() };
        assert(parking@ =~= Map::<Root, Batch>::empty());
        parking
    }

    /// Where the entry under `root` is.
    fn find(&self, root: &Root) -> (place: Option<usize>)
        ensures
            place is Some <==> self@.contains_key(*root),
            place matches Some(i) ==> i < self.entries.len() && self.entries@[i as int].0 == *root
                && self.entries@[i as int].1 == self@[*root],
    {
        proof {
            use_type_invariant(self);
        }
        let mut i: usize = 0;
        while i < self.entries.len()
            invariant
                i <= self.entries.len(),
                roots_differ(self.entries@),
                forall|k: int| 0 <= k < i ==> (#[trigger] self.entries@[k]).0 != *root,
            decreases self.entries.len() - i,
        {
            if self.entries[i].0.same(root) {
                proof {
                    assert(parked(self.entries@, *root));
                    let k = choose|k: int|
                        0 <= k < self.entries@.len() && (#[trigger] self.entries@[k]).0 == *root;
                    assert(k == i);
                }
                return Some(i);
            }
            i += 1;
        }
        None
    }

    /// Whether a batch is parked under `root`.
    pub fn holds(&self, root: &Root) -> (held: bool)
        ensures
            held == self@.contains_key(*root),
    {
        self.find(root).is_some()
    }

    /// Number of parked batches.
    pub fn len(&self) -> (len: usize)
        ensures
            self@.dom().finite(),
            len == self@.dom().len(),
    {
        proof {
            use_type_invariant(self);
            lemma_roots_count(self.entries@);
            assert(self@.dom() =~= roots_of(self.entries@));
        }
        self.entries.len()
    }

    /// Parks `batch` under `root`. A batch already there under that root
    /// gives way, so parking one batch twice leaves one entry.
    pub fn park(&mut self, root: Root, batch: Batch)
        ensures
            final(self)@ == old(self)@.insert(root, batch),
    {
        proof {
            use_type_invariant(&*self);
        }
        let ghost before = self.entries@;
        let place = self.find(&root);
        let mut taken = Parking { entries: Vec::new() };
        core::mem::swap(self, &mut taken);
        let mut entries = taken.entries;
        match place {
            Some(i) => {
                entries[i] = (root, batch);
                proof {
                    let after = entries@;
                    assert forall|r: Root| parked(after, r) <==> parked(before, r) || r == root by {
                        if parked(after, r) {
                            let k = choose|k: int|
                                0 <= k < after.len() && (#[trigger] after[k]).0 == r;
                            assert(before[k].0 == r || r == root);
                        }
                        if parked(before, r) {
                            let k = choose|k: int|
                                0 <= k < before.len() && (#[trigger] before[k]).0 == r;
                            assert(after[k].0 == r);
                        }
                        if r == root {
                            assert(after[i as int].0 == r);
                        }
                    }
                }
            },
            None => {
                entries.push((root, batch));
                proof {
                    let after = entries@;
                    assert forall|r: Root| parked(after, r) <==> parked(before, r) || r == root by {
                        if parked(after, r) {
                            let k = choose|k: int|
                                0 <= k < after.len() && (#[trigger] after[k]).0 == r;
                            if k < before.len() {
                                assert(before[k].0 == r);
                            }
                        }
                        if parked(before, r) {
                            let k = choose|k: int|
                                0 <= k < before.len() && (#[trigger] before[k]).0 == r;
                            assert(after[k].0 == r);
                        }
                        if r == root {
                            assert(after[after.len() - 1].0 == r);
                        }
                    }
                }
            },
        }
        *self = Parking { entries };
        proof {
            let after = self.entries@;
            let old_map = old(self)@;
            assert forall|r: Root| parked(after, r) implies #[trigger] self@[r] == old_map.insert(
                root,
                batch,
            )[r] by {
                let k = choose|k: int| 0 <= k < after.len() && (#[trigger] after[k]).0 == r;
                if r != root {
                    let j = choose|j: int| 0 <= j < before.len() && (#[trigger] before[j]).0 == r;
                    assert(after[j].0 == r);
                    assert(k == j);
                    assert(after[k].1 == before[j].1);
                } else {
                    assert(after[k].1 == batch);
                }
            }
            assert(self@ =~= old_map.insert(root, batch));
        }
    }

    /// Takes the batch parked under `root` out, if one is there.
    pub fn release(&mut self, root: &Root) -> (batch: Option<Batch>)
        ensures
            old(self)@.contains_key(*root) ==> batch == Some(old(self)@[*root]),
            !old(self)@.contains_key(*root) ==> batch is None,
            final(self)@ == old(self)@.remove(*root),
    {
        proof {
            use_type_invariant(&*self);
        }
        let ghost before = self.entries@;
        match self.find(root) {
            Some(i) => {
                let mut taken = Parking { entries: Vec::new() };
                core::mem::swap(self, &mut taken);
                let mut entries = taken.entries;
                let (_, batch) = entries.remove(i);
                *self = Parking { entries };
                proof {
                    let after = self.entries@;
                    let old_map = old(self)@;
                    assert forall|r: Root| parked(after, r) <==> parked(before, r) && r != *root by {
                        if parked(after, r) {
                            let k = choose|k: int|
                                0 <= k < after.len() && (#[trigger] after[k]).0 == r;
                            if k < i {
                                assert(before[k].0 == r);
                            } else {
                                assert(before[k + 1].0 == r);
                            }
                        }
                        if parked(before, r) && r != *root {
                            let k = choose|k: int|
                                0 <= k < before.len() && (#[trigger] before[k]).0 == r;
                            if k < i {
                                assert(after[k].0 == r);
                            } else {
                                assert(after[k - 1].0 == r);
                            }
                        }
                    }
                    assert forall|r: Root| parked(after, r) implies #[trigger] self@[r]
                        == old_map[r] by {
                        let k = choose|k: int| 0 <= k < after.len() && (#[trigger] after[k]).0 == r;
                        let j = choose|j: int|
                            0 <= j < before.len() && (#[trigger] before[j]).0 == r;
                        let k0 = if k < i {
                            k
                        } else {
                            k + 1
                        };
                        assert(before[k0].0 == r);
                        assert(k0 == j);
                    }
                    assert(self@ =~= old_map.remove(*root));
                }
                Some(batch)
            },
            None => {
                assert(self@ =~= old(self)@.remove(*root));
                None
            },
        }
    }
}

/// A batch that was parked is there to be released, and once released it
/// is parked no longer; what is parked under other roots stays.
pub proof fn lemma_parked_then_released(
    parking: Map<Root, Batch>,
    root: Root,
    batch: Batch,
    other: Root,
)
    requires
        other != root,
    ensures
        parking.insert(root, batch).contains_key(root),
        parking.insert(root, batch)[root] == batch,
        !parking.insert(root, batch).remove(root).contains_key(root),
        parking.insert(root, batch).remove(root).contains_key(other) == parking.contains_key(other),
        parking.contains_key(other) ==> parking.insert(root, batch).remove(root)[other]
            == parking[other],
{
}

/// Parking a batch again under the root it is parked under changes
/// nothing: the parking still has one entry for that root.
pub proof fn lemma_parking_idempotent(parking: Map<Root, Batch>, root: Root, batch: Batch)
    ensures
        parking.insert(root, batch).insert(root, batch) == parking.insert(root, batch),
        parking.insert(root, batch).contains_key(root),
        parking.insert(root, batch)[root] == batch,
{
    assert(parking.insert(root, batch).insert(root, batch) =~= parking.insert(root, batch));
}

} // verus!
