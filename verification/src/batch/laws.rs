use vstd::prelude::*;
use crate::batch::batch::{ids_of, messages_of, zipped, Batch};
use crate::batch::compressed_batch::CompressedBatch;
use crate::batch::payload::{padded, padding_for, Payload, NIBBLE};
use crate::batch::verify::{ascending, chosen, resolved};
use crate::directory::Directory;

verus! {

/// Slots that fill whole leaves need no padding.
pub proof fn lemma_padded_whole(slots: Seq<Payload>)
    requires
        slots.len() % (NIBBLE as nat) == 0,
    ensures
        padded(slots) == slots,
{
    assert(padding_for(slots.len()) == 0);
    assert(padded(slots) =~= slots);
}

/// Compressing a batch and decompressing the result gives the batch
/// again: the same slots, leaf by leaf, which is all that the root is
/// computed from, the same payloads, and the same signatures.
pub proof fn lemma_round_trip(batch: Batch, compressed: CompressedBatch, restored: Batch)
    requires
        batch.well_formed(),
        batch.compresses_to(compressed),
        restored.agrees(
            Some(compressed.ids@),
            compressed.messages@,
            compressed.reduction,
            compressed.stragglers,
        ),
    ensures
        restored.slots() == batch.slots(),
        restored.spec_payloads() == batch.spec_payloads(),
        restored.spec_reduction() == batch.spec_reduction(),
        restored.spec_stragglers() == batch.spec_stragglers(),
{
    let slots = batch.slots();
    assert(zipped(ids_of(slots), messages_of(slots)) =~= slots);
    lemma_padded_whole(slots);
}

/// A batch in which a payload's id is not above the id of a payload before
/// it (the two share an id, or are out of order) is refused, whatever its
/// signatures.
pub proof fn lemma_unordered_refused(
    batch: Batch,
    directory: Directory,
    i: int,
    j: int,
    stragglers_genuine: Seq<bool>,
    reduction_genuine: bool,
)
    requires
        0 <= i < j < batch.spec_payloads().len(),
        batch.spec_payloads()[i].id >= batch.spec_payloads()[j].id,
    ensures
        !batch.sound(&directory),
        !batch.authentic(&directory, stragglers_genuine, reduction_genuine),
{
}

/// A batch with a signature check that fails is refused: the check of a
/// straggler's signature, or that of the reduction where the batch has a
/// reducer.
pub proof fn lemma_failed_check_refused(
    batch: Batch,
    directory: Directory,
    stragglers_genuine: Seq<bool>,
    reduction_genuine: bool,
    failed: int,
)
    requires
        (0 <= failed < stragglers_genuine.len() && !stragglers_genuine[failed]) || (
        batch.spec_reducers().len() > 0 && !reduction_genuine),
    ensures
        !batch.authentic(&directory, stragglers_genuine, reduction_genuine),
{
}

/// With no straggler ids, every payload is a reducer.
pub proof fn lemma_all_reducers(payloads: Seq<Payload>)
    ensures
        chosen(payloads, Seq::<u64>::empty(), false) == payloads,
        chosen(payloads, Seq::<u64>::empty(), true) == Seq::<Payload>::empty(),
    decreases payloads.len(),
{
    if payloads.len() > 0 {
        lemma_all_reducers(payloads.drop_last());
        assert(!Seq::<u64>::empty().contains(payloads.last().id));
        assert(payloads =~= payloads.drop_last().push(payloads.last()));
    }
}

/// A batch as the honest path makes it is accepted: ids ascend, each id is
/// in the directory, it has no stragglers, it is sealed with the reducers'
/// aggregate, and that aggregate holds.
pub proof fn lemma_honest_accepted(batch: Batch, directory: Directory)
    requires
        ascending(batch.spec_payloads()),
        resolved(&directory, batch.spec_payloads()),
        batch.spec_stragglers()@.len() == 0,
        batch.spec_reduction() is Some,
    ensures
        batch.spec_reducers() == batch.spec_payloads(),
        batch.sound(&directory),
        batch.authentic(&directory, Seq::<bool>::empty(), true),
{
    assert(batch.spec_straggler_ids() =~= Seq::<u64>::empty());
    lemma_all_reducers(batch.spec_payloads());
}

/// A batch as it is drawn at random from a directory without gaps, once
/// sealed, is accepted if its reduction holds: its ids ascend and are
/// below the directory's capacity, and it has no stragglers.
pub proof fn lemma_drawn_accepted(batch: Batch, directory: Directory)
    requires
        ascending(batch.spec_payloads()),
        forall|i: int|
            0 <= i < batch.spec_payloads().len() ==> (#[trigger] batch.spec_payloads()[i]).id
                < directory@.len(),
        forall|id: u64| id < directory@.len() ==> directory.knows(id),
        batch.spec_stragglers()@.len() == 0,
        batch.spec_reduction() is Some,
    ensures
        batch.authentic(&directory, Seq::<bool>::empty(), true),
{
    lemma_honest_accepted(batch, directory);
}

} // verus!
