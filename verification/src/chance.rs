//! Random choices, drawn from the thread's generator.

use rand::seq::IteratorRandom;
use vstd::prelude::*;
use crate::batch::payload::Message;

verus! {

/// Calls `IteratorRandom::choose_multiple` of `rand` on the range
/// `0..bound` with the thread's generator. The method fills a reservoir with
/// the first `amount` numbers of the range and then replaces entries by
/// later numbers at random, so it returns `amount` numbers of the range (all
/// of them where the range has fewer), none of them twice, in no particular
/// order. Which numbers come back differs from call to call.
#[verifier::external_body]
pub(crate) fn choose_multiple(bound: u64, amount: usize) -> (chosen: Vec<u64>)
    requires
        amount <= usize::MAX / 16,
    ensures
        chosen.len() == if amount <= bound {
            amount as int
        } else {
            bound as int
        },
        forall|i: int| 0 <= i < chosen.len() ==> chosen[i] < bound,
        forall|i: int, j: int| 0 <= i < chosen.len() && 0 <= j < chosen.len() && i != j ==> chosen[i]
            != chosen[j],
{
    (0..bound).choose_multiple(&mut rand::thread_rng(), amount)
}

/// Calls `rand::random` for eight bytes. Nothing is known of what comes
/// back.
#[verifier::external_body]
pub(crate) fn random_message() -> (message: Message) {
    rand::random()
}

} // verus!
