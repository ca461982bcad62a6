use vstd::prelude::*;
use crate::sorting::Ranked;
use crate::batch::compressed_batch::CompressedBatch;
use crate::batch::payload::{
    lemma_reals_of_padded, padded, padding_for, reals, Message, Payload, NIBBLE,
};
use crate::batch::verify::ascending;
use crate::chance::{choose_multiple, random_message};
use crate::crypto::{MultiSignature, Signature};
use crate::directory::Directory;
use crate::sorting::sort_distinct;

verus! {

/// Why a batch is refused. Callers need not tell the causes apart.
#[derive(Clone, Copy, Debug, PartialEq, Eq, Structural)]
pub enum BatchError {
    /// The batch is malformed, its ids are out of order, or one of its
    /// signatures does not hold.
    BatchInvalid,
}

/// Ids and messages paired in order.
pub open spec fn zipped(ids: Seq<u64>, messages: Seq<Message>) -> Seq<Payload> {
    Seq::new(ids.len(), |i: int| Payload { id: ids[i], message: messages[i] })
}

/// The ids of the payloads, in order.
pub open spec fn ids_of(payloads: Seq<Payload>) -> Seq<u64> {
    Seq::new(payloads.len(), |i: int| payloads[i].id)
}

/// The messages of the payloads, in order.
pub open spec fn messages_of(payloads: Seq<Payload>) -> Seq<Message> {
    Seq::new(payloads.len(), |i: int| payloads[i].message)
}

/// The leaf at `index` of the vector over `slots`.
pub open spec fn leaf_at(slots: Seq<Payload>, index: int) -> Seq<Payload> {
    slots.subrange(index * NIBBLE as int, (index + 1) * NIBBLE as int)
}

/// Payloads of clients in ascending order of id, padded to whole leaves of
/// `NIBBLE` slots, with the signatures that authenticate them: one aggregate
/// of the reducers over the batch's root, and one signature of each
/// straggler over its own message.
#[derive(Debug, PartialEq, Eq)]
pub struct Batch {
    payloads: Vec<Payload>,
    reduction: Option<MultiSignature>,
    stragglers: Vec<(u64, Signature)>,
}

impl Batch {
    /// All slots of the batch, padding included: the sequence that the
    /// batch's root commits to, leaf by leaf.
    pub closed spec fn slots(&self) -> Seq<Payload> {
        self.payloads@
    }

    /// The aggregate signature of the reducers, if the batch has one.
    pub closed spec fn spec_reduction(&self) -> Option<MultiSignature> {
        self.reduction
    }

    /// The stragglers' ids and signatures, as a plain value.
    pub closed spec fn spec_stragglers(&self) -> Vec<(u64, Signature)> {
        self.stragglers
    }

    /// The slots fill whole leaves.
    #[verifier::type_invariant]
    pub open spec fn well_formed(&self) -> bool {
        self.slots().len() % (NIBBLE as nat) == 0
    }

    /// The payloads of the batch's clients, in order.
    pub open spec fn spec_payloads(&self) -> Seq<Payload> {
        reals(self.slots())
    }

    /// Whether the batch is the one that the given wire values describe.
    pub open spec fn agrees(
        &self,
        ids: Option<Seq<u64>>,
        messages: Seq<Message>,
        reduction: Option<MultiSignature>,
        stragglers: Vec<(u64, Signature)>,
    ) -> bool {
        &&& ids is Some
        &&& self.well_formed()
        &&& self.slots() == padded(zipped(ids->0, messages))
        &&& self.spec_reduction() == reduction
        &&& self.spec_stragglers() == stragglers
    }

    /// Whether `compressed` is the wire form of the batch: the ids and the
    /// messages of all its slots, padding included, with its signatures.
    pub open spec fn compresses_to(&self, compressed: CompressedBatch) -> bool {
        &&& compressed.ids@ == ids_of(self.slots())
        &&& compressed.messages@ == messages_of(self.slots())
        &&& compressed.reduction == self.spec_reduction()
        &&& compressed.stragglers == self.spec_stragglers()
    }

    /// Pads the payloads with padding slots to whole leaves.
    pub fn vectorize_payloads(payloads: Vec<Payload>) -> (slots: Vec<Payload>)
        ensures
            slots@ == padded(payloads@),
            slots.len() % NIBBLE == 0,
    {
        let mut slots = payloads;
        let ghost given = slots@;
        let remainder = slots.len() % NIBBLE;
        let missing = if remainder == 0 {
            0
        } else {
            NIBBLE - remainder
        };
        assert(missing == padding_for(given.len()));
        let mut added: usize = 0;
        while added < missing
            invariant
                added <= missing,
                slots@ == given + Seq::new(added as nat, |i: int| Payload::padding()),
            decreases missing - added,
        {
            slots.push(Payload::padding());
            added += 1;
            assert(slots@ =~= given + Seq::new(added as nat, |i: int| Payload::padding()));
        }
        slots
    }

    /// A batch of the given payloads, padded to whole leaves.
    pub fn new(
        payloads: Vec<Payload>,
        reduction: Option<MultiSignature>,
        stragglers: Vec<(u64, Signature)>,
    ) -> (batch: Batch)
        ensures
            batch.well_formed(),
            batch.slots() == padded(payloads@),
            batch.spec_payloads() == reals(payloads@),
            batch.spec_reduction() == reduction,
            batch.spec_stragglers() == stragglers,
    {
        proof {
            lemma_reals_of_padded(payloads@);
        }
        let payloads = Batch::vectorize_payloads(payloads);
        Batch { payloads, reduction, stragglers }
    }

    /// Rebuilds a batch from its wire values. `ids` is what unpacking the
    /// ids gave: `None` where they could not be unpacked. Fails then, and
    /// where there is not one message for each id.
    pub fn from_compressed_batch(
        ids: Option<Vec<u64>>,
        messages: Vec<Message>,
        reduction: Option<MultiSignature>,
        stragglers: Vec<(u64, Signature)>,
    ) -> (batch: Result<Batch, BatchError>)
        ensures
            batch is Ok <==> (ids matches Some(ids) && ids.len() == messages.len()),
            batch matches Ok(b) ==> b.agrees(
                match ids {
                    Some(ids) => Some(ids@),
                    None => None,
                },
                messages@,
                reduction,
                stragglers,
            ),
    {
        let ids = match ids {
            Some(ids) => ids,
            None => {
                return Err(BatchError::BatchInvalid);
            },
        };
        if ids.len() != messages.len() {
            return Err(BatchError::BatchInvalid);
        }
        let mut payloads: Vec<Payload> = Vec::new();
        let mut i: usize = 0;
        while i < ids.len()
            invariant
                i <= ids.len(),
                ids.len() == messages.len(),
                payloads@ == zipped(ids@, messages@).take(i as int),
            decreases ids.len() - i,
        {
            payloads.push(Payload { id: ids[i], message: messages[i] });
            i += 1;
            assert(payloads@ =~= zipped(ids@, messages@).take(i as int));
        }
        assert(payloads@ =~= zipped(ids@, messages@));
        let payloads = Batch::vectorize_payloads(payloads);
        Ok(Batch { payloads, reduction, stragglers })
    }

    /// A batch of `size` clients drawn at random from the ids below the
    /// directory's capacity (of all of them, where there are fewer), each
    /// with a random message, in ascending order of id. The batch has no
    /// stragglers and is not yet sealed with a reduction. The number of
    /// clients drawn must be a number of ids that a vector can be made for.
    pub fn random(directory: &Directory, size: usize) -> (batch: Batch)
        requires
            size <= usize::MAX / 16 || directory@.len() <= usize::MAX / 16,
        ensures
            batch.well_formed(),
            batch.slots() == padded(batch.spec_payloads()),
            batch.spec_payloads().len() == if size <= directory@.len() {
                size as int
            } else {
                directory@.len() as int
            },
            ascending(batch.spec_payloads()),
            forall|i: int|
                0 <= i < batch.spec_payloads().len() ==> (#[trigger] batch.spec_payloads()[i]).id
                    < directory@.len(),
            batch.spec_reduction() is None,
            batch.spec_stragglers()@.len() == 0,
    {
        let bound = directory.capacity() as u64;
        let amount = if size as u64 > bound {
            bound as usize
        } else {
            size
        };
        let mut ids = choose_multiple(bound, amount);
        let ghost drawn = ids@;
        assert(crate::sorting::distinct(ids@));
        sort_distinct(&mut ids);
        let mut payloads: Vec<Payload> = Vec::new();
        let mut i: usize = 0;
        while i < ids.len()
            invariant
                i <= ids.len(),
                payloads.len() == i,
                forall|j: int| 0 <= j < i ==> (#[trigger] payloads[j]).id == ids[j],
            decreases ids.len() - i,
        {
            payloads.push(Payload { id: ids[i], message: random_message() });
            i += 1;
        }
        proof {
            assert forall|j: int| 0 <= j < payloads.len() implies (#[trigger] payloads[j]).id
                < bound by {
                assert(drawn.contains(ids@[j]));
            }
            assert forall|a: int, b: int| 0 <= a < b < payloads.len() implies payloads@[a].id
                < payloads@[b].id by {
                assert(ids@[a].place() < ids@[b].place());
            }
            crate::batch::payload::lemma_reals_of_real(payloads@);
            lemma_reals_of_padded(payloads@);
        }
        let payloads = Batch::vectorize_payloads(payloads);
        Batch { payloads, reduction: None, stragglers: Vec::new() }
    }

    /// The payloads of the batch's clients, in order: the slots without the
    /// padding.
    pub fn payloads(&self) -> (payloads: Vec<Payload>)
        ensures
            payloads@ == self.spec_payloads(),
    {
        let mut payloads: Vec<Payload> = Vec::new();
        let mut i: usize = 0;
        while i < self.payloads.len()
            invariant
                i <= self.payloads.len(),
                payloads@ == reals(self.payloads@.take(i as int)),
            decreases self.payloads.len() - i,
        {
            let payload = self.payloads[i];
            proof {
                let next = self.payloads@.take(i + 1);
                assert(next.drop_last() =~= self.payloads@.take(i as int));
                assert(next.last() == payload);
            }
            if !payload.is_padding() {
                payloads.push(payload);
            }
            i += 1;
        }
        assert(self.payloads@.take(i as int) =~= self.payloads@);
        payloads
    }

    /// Number of leaves in the vector that commits to the batch.
    pub fn leaf_count(&self) -> (count: usize)
        ensures
            count == self.slots().len() / (NIBBLE as nat),
    {
        self.payloads.len() / NIBBLE
    }

    /// The leaves of the vector that commits to the batch: the slots in
    /// order, `NIBBLE` to a leaf.
    pub fn leaves(&self) -> (leaves: Vec<[Payload; 16]>)
        ensures
            leaves.len() == self.slots().len() / (NIBBLE as nat),
            forall|k: int| 0 <= k < leaves.len() ==> (#[trigger] leaves[k])@ == leaf_at(self.slots(), k),
    {
        proof {
            use_type_invariant(self);
        }
        let count = self.payloads.len() / NIBBLE;
        let mut leaves: Vec<[Payload; 16]> = Vec::new();
        let mut k: usize = 0;
        while k < count
            invariant
                k <= count,
                count == self.payloads.len() / NIBBLE,
                leaves.len() == k,
                forall|j: int| 0 <= j < k ==> (#[trigger] leaves[j])@ == leaf_at(self.payloads@, j),
            decreases count - k,
        {
            let mut leaf = [Payload::padding();16];
            let base = k * NIBBLE;
            let mut j: usize = 0;
            while j < NIBBLE
                invariant
                    j <= NIBBLE,
                    base == k * NIBBLE,
                    base + NIBBLE <= self.payloads.len(),
                    forall|m: int| 0 <= m < j ==> leaf@[m] == self.payloads@[base + m],
                decreases NIBBLE - j,
            {
                leaf[j] = self.payloads[base + j];
                j += 1;
            }
            assert(leaf@ =~= leaf_at(self.payloads@, k as int));
            leaves.push(leaf);
            k += 1;
        }
        leaves
    }

    /// The aggregate signature of the reducers, if the batch has one.
    pub fn reduction(&self) -> (reduction: &Option<MultiSignature>)
        ensures
            *reduction == self.spec_reduction(),
    {
        &self.reduction
    }

    /// The stragglers' ids, each with the straggler's signature.
    pub fn stragglers(&self) -> (stragglers: &Vec<(u64, Signature)>)
        ensures
            *stragglers == self.spec_stragglers(),
    {
        &self.stragglers
    }

    /// Attaches the reducers' aggregate signature.
    pub fn seal(self, reduction: MultiSignature) -> (batch: Batch)
        ensures
            batch.well_formed(),
            batch.slots() == self.slots(),
            batch.spec_reduction() == Some(reduction),
            batch.spec_stragglers() == self.spec_stragglers(),
    {
        proof {
            use_type_invariant(&self);
        }
        Batch { payloads: self.payloads, reduction: Some(reduction), stragglers: self.stragglers }
    }

    /// The wire form of the batch: the ids and the messages of all its
    /// slots, with its signatures.
    pub fn compress(self) -> (compressed: CompressedBatch)
        ensures
            self.compresses_to(compressed),
    {
        let mut ids: Vec<u64> = Vec::new();
        let mut messages: Vec<Message> = Vec::new();
        let mut i: usize = 0;
        while i < self.payloads.len()
            invariant
                i <= self.payloads.len(),
                ids@ == ids_of(self.payloads@).take(i as int),
                messages@ == messages_of(self.payloads@).take(i as int),
            decreases self.payloads.len() - i,
        {
            ids.push(self.payloads[i].id);
            messages.push(self.payloads[i].message);
            i += 1;
            assert(ids@ =~= ids_of(self.payloads@).take(i as int));
            assert(messages@ =~= messages_of(self.payloads@).take(i as int));
        }
        assert(ids@ =~= ids_of(self.payloads@));
        assert(messages@ =~= messages_of(self.payloads@));
        CompressedBatch { ids, messages, reduction: self.reduction, stragglers: self.stragglers }
    }
}

} // verus!
