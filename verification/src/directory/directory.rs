use vstd::prelude::*;
use crate::crypto::KeyCard;

verus! {

/// Number of slots among the first `upto` that hold a key card.
pub open spec fn occupied(slots: Seq<Option<KeyCard>>, upto: int) -> nat
    decreases upto,
{
    if upto <= 0 {
        0
    } else {
        occupied(slots, upto - 1) + if slots[upto - 1] is Some {
            1nat
        } else {
            0nat
        }
    }
}

/// The slots after `keycard` was stored under `id`: the sequence grows by
/// empty slots as far as needed, and a card already there is replaced.
pub open spec fn stored(slots: Seq<Option<KeyCard>>, id: u64, keycard: KeyCard) -> Seq<
    Option<KeyCard>,
> {
    if id < slots.len() {
        slots.update(id as int, Some(keycard))
    } else {
        (slots + Seq::new((id - slots.len()) as nat, |i: int| None::<KeyCard>)).push(Some(keycard))
    }
}

/// The slots that hold each entry's card under its id, later entries
/// replacing earlier ones.
pub open spec fn collected(entries: Seq<(u64, KeyCard)>) -> Seq<Option<KeyCard>>
    decreases entries.len(),
{
    if entries.len() == 0 {
        Seq::empty()
    } else {
        stored(collected(entries.drop_last()), entries.last().0, entries.last().1)
    }
}

/// Number of chunks in which a directory is stored.
pub const CHUNKS: usize = 64;

/// Number of entries in each chunk but the last, where `entries` entries are
/// stored in `CHUNKS` chunks: the entries divided by the chunks, rounded up.
pub fn chunk_size(entries: usize) -> (size: usize)
    ensures
        size == (entries + CHUNKS - 1) / (CHUNKS as int),
        size * CHUNKS >= entries,
        entries > 0 ==> size > 0 && (size - 1) * CHUNKS < entries,
{
    if entries % CHUNKS == 0 {
        entries / CHUNKS
    } else {
        entries / CHUNKS + 1
    }
}

/// Sparse sequence of the clients' key cards, indexed by client id.
#[derive(Clone, Debug, PartialEq, Eq)]
pub struct Directory {
    keycards: Vec<Option<KeyCard>>,
}

impl View for Directory {
    type V = Seq<Option<KeyCard>>;

    closed spec fn view(&self) -> Seq<Option<KeyCard>> {
        self.keycards@
    }
}

impl Directory {
    /// Whether the directory holds a key card for `id`.
    pub open spec fn knows(&self, id: u64) -> bool {
        id < self@.len() && self@[id as int] is Some
    }

    /// A directory without slots.
    pub fn new() -> (directory: Directory)
        ensures
            directory@ == Seq::<Option<KeyCard>>::empty(),
    {
        Directory { keycards: Vec::new() }
    }

    /// A directory with the given slots.
    pub fn from_slots(slots: Vec<Option<KeyCard>>) -> (directory: Directory)
        ensures
            directory@ == slots@,
    {
        Directory { keycards: slots }
    }

    /// Stores `keycard` under `id`, growing the directory as far as needed.
    pub fn insert(&mut self, id: u64, keycard: KeyCard)
        requires
            id < usize::MAX,
        ensures
            final(self)@ == stored(old(self)@, id, keycard),
    {
        let index = id as usize;
        if index < self.keycards.len() {
            self.keycards[index] = Some(keycard);
        } else {
            let ghost before = self.keycards@;
            while self.keycards.len() < index
                invariant
                    before.len() <= self.keycards.len() <= index,
                    self.keycards@ == before + Seq::new(
                        (self.keycards.len() - before.len()) as nat,
                        |i: int| None::<KeyCard>,
                    ),
                decreases index - self.keycards.len(),
            {
                self.keycards.push(None);
                assert(self.keycards@ =~= before + Seq::new(
                    (self.keycards.len() - before.len()) as nat,
                    |i: int| None::<KeyCard>,
                ));
            }
            self.keycards.push(Some(keycard));
        }
    }

    /// The directory that holds each entry's card under its id, later
    /// entries replacing earlier ones.
    pub fn from_keycards(entries: Vec<(u64, KeyCard)>) -> (directory: Directory)
        requires
            forall|i: int| 0 <= i < entries.len() ==> (#[trigger] entries[i]).0 < usize::MAX,
        ensures
            directory@ == collected(entries@),
    {
        let mut directory = Directory::new();
        let mut entries = entries;
        let ghost all = entries@;
        let mut rest: Vec<(u64, KeyCard)> = Vec::new();
        // Entries leave the vector from its end, so turn it round first.
        while entries.len() > 0
            invariant
                entries.len() + rest.len() == all.len(),
                forall|i: int| 0 <= i < entries.len() ==> entries[i] == all[i],
                forall|i: int| 0 <= i < rest.len() ==> rest[i] == all[all.len() - 1 - i],
            decreases entries.len(),
        {
            let entry = entries.pop().unwrap();
            rest.push(entry);
        }
        let mut done: usize = 0;
        let total = rest.len();
        while rest.len() > 0
            invariant
                total == all.len(),
                done + rest.len() == total,
                forall|i: int| 0 <= i < rest.len() ==> rest[i] == all[all.len() - 1 - i],
                forall|i: int| 0 <= i < all.len() ==> (#[trigger] all[i]).0 < usize::MAX,
                directory@ == collected(all.take(done as int)),
            decreases rest.len(),
        {
            let (id, keycard) = rest.pop().unwrap();
            proof {
                assert(all.take(done + 1).drop_last() =~= all.take(done as int));
                assert(all.take(done + 1).last() == all[done as int]);
                assert((id, keycard) == all[done as int]);
            }
            directory.insert(id, keycard);
            done += 1;
        }
        assert(all.take(done as int) =~= all);
        directory
    }

    /// The key card stored under `id`.
    pub fn keycard(&self, id: u64) -> (keycard: Option<&KeyCard>)
        ensures
            self.knows(id) ==> keycard == Some(&self@[id as int]->0),
            !self.knows(id) ==> keycard is None,
    {
        if id >= self.keycards.len() as u64 {
            return None;
        }
        self.keycards[id as usize].as_ref()
    }

    /// The ids that the directory knows, in ascending order.
    pub fn ids(&self) -> (ids: Vec<u64>)
        ensures
            forall|a: int, b: int| 0 <= a < b < ids.len() ==> ids[a] < ids[b],
            forall|k: int| 0 <= k < ids.len() ==> self.knows(#[trigger] ids[k]),
            forall|id: u64| self.knows(id) ==> ids@.contains(id),
            ids.len() == occupied(self@, self@.len() as int),
    {
        let mut ids: Vec<u64> = Vec::new();
        let mut i: usize = 0;
        while i < self.keycards.len()
            invariant
                i <= self.keycards.len(),
                forall|a: int, b: int| 0 <= a < b < ids.len() ==> ids[a] < ids[b],
                forall|k: int| 0 <= k < ids.len() ==> self.knows(#[trigger] ids[k]) && ids[k] < i,
                forall|id: u64| self.knows(id) && id < i ==> ids@.contains(id),
                ids.len() == occupied(self.keycards@, i as int),
            decreases self.keycards.len() - i,
        {
            if self.keycards[i].is_some() {
                let ghost before = ids@;
                ids.push(i as u64);
                proof {
                    assert forall|id: u64| self.knows(id) && id < i + 1 implies ids@.contains(
                        id,
                    ) by {
                        if id < i {
                            let k = choose|k: int| 0 <= k < before.len() && before[k] == id;
                            assert(ids@[k] == id);
                        } else {
                            assert(ids@[ids.len() - 1] == id);
                        }
                    }
                }
            }
            i += 1;
        }
        ids
    }

    /// Number of slots: every id that the directory knows is below it.
    pub fn capacity(&self) -> (capacity: usize)
        ensures
            capacity == self@.len(),
    {
        self.keycards.len()
    }

    /// Number of key cards in the directory.
    pub fn len(&self) -> (len: usize)
        ensures
            len == occupied(self@, self@.len() as int),
    {
        let mut count: usize = 0;
        let mut i: usize = 0;
        while i < self.keycards.len()
            invariant
                i <= self.keycards.len(),
                count == occupied(self.keycards@, i as int),
                count <= i,
            decreases self.keycards.len() - i,
        {
            if self.keycards[i].is_some() {
                count += 1;
            }
            i += 1;
        }
        count
    }
}

} // verus!
