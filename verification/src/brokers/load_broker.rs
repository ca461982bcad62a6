use vstd::prelude::*;
use crate::batch::CompressedBatch;
use crate::brokers::submission::{SubmitState, Submission};
use crate::chance::choose_multiple;
use crate::crypto::{Identity, Root};
use crate::membership::certificate::{count_set, lemma_count_set_update};
use crate::membership::membership::{canonical, plurality_of, quorum_of};
use crate::membership::Membership;
use crate::sorting::{distinct, rising, sort_distinct, Ranked};

verus! {

/// For each submission, whether its server is asked for a witness share.
pub open spec fn verifying(submissions: Seq<Submission>) -> Seq<bool> {
    Seq::new(submissions.len(), |i: int| submissions[i].owes_share)
}

/// Number of submissions that are done: of servers that were sent the
/// batch and its certificate and that answered with an order share.
pub open spec fn count_done(submissions: Seq<Submission>) -> nat
    decreases submissions.len(),
{
    if submissions.len() == 0 {
        0
    } else {
        count_done(submissions.drop_last()) + if submissions.last().state == SubmitState::Done {
            1nat
        } else {
            0nat
        }
    }
}

/// Whether order shares were gathered from at least `threshold` servers:
/// whether that many of the submissions are done.
pub fn gathered(submissions: &Vec<Submission>, threshold: usize) -> (done: bool)
    ensures
        done == (count_done(submissions@) >= threshold),
{
    let mut count: usize = 0;
    let mut i: usize = 0;
    while i < submissions.len()
        invariant
            i <= submissions.len(),
            count == count_done(submissions@.take(i as int)),
            count <= i,
        decreases submissions.len() - i,
    {
        proof {
            assert(submissions@.take(i + 1).drop_last() =~= submissions@.take(i as int));
        }
        match submissions[i].state {
            SubmitState::Done => {
                count += 1;
            },
            _ => {},
        }
        i += 1;
    }
    assert(submissions@.take(i as int) =~= submissions@);
    count >= threshold
}

/// A broker, with the batches that it is to broadcast, each under its
/// root and in the form in which it travels.
#[derive(Debug)]
pub struct LoadBroker<B = CompressedBatch> {
    membership: Membership,
    batches: Vec<(Root, B)>,
}

impl<B> LoadBroker<B> {
    /// The servers.
    pub closed spec fn spec_membership(&self) -> Membership {
        self.membership
    }

    /// The batches, each under its root.
    pub closed spec fn spec_batches(&self) -> Seq<(Root, B)> {
        self.batches@
    }

    pub fn new(membership: Membership, batches: Vec<(Root, B)>) -> (broker: LoadBroker<B>)
        ensures
            broker.spec_membership() == membership,
            broker.spec_batches() == batches@,
    {
        LoadBroker { membership, batches }
    }

    /// The servers.
    pub fn membership(&self) -> (membership: &Membership)
        ensures
            *membership == self.spec_membership(),
    {
        &self.membership
    }

    /// Number of batches.
    pub fn len(&self) -> (len: usize)
        ensures
            len == self.spec_batches().len(),
    {
        self.batches.len()
    }

    /// The batch at `index`, under its root.
    pub fn batch(&self, index: usize) -> (batch: Option<&(Root, B)>)
        ensures
            index < self.spec_batches().len() ==> batch == Some(&self.spec_batches()[index as int]),
            index >= self.spec_batches().len() ==> batch is None,
    {
        if index < self.batches.len() {
            Some(&self.batches[index])
        } else {
            None
        }
    }

    /// Whether the broadcast that the submissions belong to is complete:
    /// whether order shares were gathered from a quorum of the servers,
    /// which is as many as a certificate at quorum takes.
    pub fn complete(&self, submissions: &Vec<Submission>) -> (complete: bool)
        ensures
            complete == (count_done(submissions@) >= quorum_of(self.spec_membership()@.len())),
    {
        gathered(submissions, self.membership.quorum())
    }

    /// Draws the places, in the canonical order, of a plurality of servers
    /// at random: distinct places, in ascending order.
    fn draw(&self) -> (places: Vec<u64>)
        requires
            plurality_of(self.spec_membership()@.len()) <= usize::MAX / 16,
        ensures
            places.len() == plurality_of(self.spec_membership()@.len()),
            rising(places@),
            forall|k: int| 0 <= k < places.len() ==> places[k] < self.spec_membership()@.len(),
    {
        let n = self.membership.size();
        let plurality = self.membership.plurality();
        let mut places = choose_multiple(n as u64, plurality);
        let ghost drawn = places@;
        assert(distinct(places@));
        sort_distinct(&mut places);
        proof {
            assert forall|k: int| 0 <= k < places.len() implies places[k] < n by {
                assert(drawn.contains(places@[k]));
            }
        }
        places
    }

    /// Picks a plurality of servers at random as verifiers: the servers
    /// that are asked to verify the batch and to witness it. They come in
    /// canonical order. The plurality must be a number of values that a
    /// vector can be made for.
    pub fn select_verifiers(&self) -> (verifiers: Vec<Identity>)
        requires
            plurality_of(self.spec_membership()@.len()) <= usize::MAX / 16,
        ensures
            verifiers.len() == plurality_of(self.spec_membership()@.len()),
            rising(verifiers@),
            forall|k: int| 0 <= k < verifiers.len() ==> self.spec_membership().has(#[trigger] verifiers[k]),
    {
        let places = self.draw();
        let servers = self.membership.servers();
        let mut verifiers: Vec<Identity> = Vec::new();
        let mut k: usize = 0;
        while k < places.len()
            invariant
                k <= places.len(),
                servers@ == self.spec_membership()@,
                canonical(servers@),
                rising(places@),
                forall|j: int| 0 <= j < places.len() ==> places[j] < servers.len(),
                verifiers.len() == k,
                forall|j: int|
                    0 <= j < k ==> (#[trigger] verifiers[j]) == servers[places[j] as int].identity,
            decreases places.len() - k,
        {
            verifiers.push(servers[places[k] as usize].identity);
            k += 1;
        }
        proof {
            assert forall|a: int, b: int| 0 <= a < b < verifiers.len() implies verifiers@[a].place()
                < verifiers@[b].place() by {
                assert(places@[a].place() < places@[b].place());
                assert(verifiers[a] == servers[places[a] as int].identity);
                assert(verifiers[b] == servers[places[b] as int].identity);
            }
            assert forall|j: int| 0 <= j < verifiers.len() implies self.spec_membership().has(
                #[trigger] verifiers[j],
            ) by {
                assert(self.spec_membership()@[places[j] as int].identity == verifiers[j]);
            }
        }
        verifiers
    }

    /// The submissions of the batch at `index`, one for each server, in
    /// canonical order, all of them yet to connect, where the servers at
    /// `places` are the verifiers: they owe a witness share, the others
    /// only receive the batch.
    pub fn assign(&self, index: usize, places: &Vec<u64>) -> (submissions: Vec<Submission>)
        requires
            index < self.spec_batches().len(),
        ensures
            submissions.len() == self.spec_membership()@.len(),
            forall|i: int|
                0 <= i < submissions.len() ==> {
                    &&& (#[trigger] submissions[i]).server == self.spec_membership()@[i].identity
                    &&& submissions[i].root == self.spec_batches()[index as int].0
                    &&& submissions[i].state == SubmitState::Connecting
                },
            verifying(submissions@) == marks(self.spec_membership()@.len(), places@),
    {
        let root = self.batches[index].0;
        let servers = self.membership.servers();
        let n = servers.len();
        let mut submissions: Vec<Submission> = Vec::new();
        let mut i: usize = 0;
        while i < n
            invariant
                i <= n,
                n == servers.len(),
                servers@ == self.spec_membership()@,
                submissions.len() == i,
                forall|j: int|
                    0 <= j < i ==> (#[trigger] submissions[j]) == (Submission {
                        server: servers[j].identity,
                        root,
                        owes_share: false,
                        state: SubmitState::Connecting,
                    }),
            decreases n - i,
        {
            submissions.push(Submission::new(servers[i].identity, root, false));
            i += 1;
        }
        let mut k: usize = 0;
        while k < places.len()
            invariant
                k <= places.len(),
                n == servers.len(),
                servers@ == self.spec_membership()@,
                submissions.len() == n,
                forall|j: int|
                    0 <= j < n ==> {
                        &&& (#[trigger] submissions[j]).server == servers[j].identity
                        &&& submissions[j].root == root
                        &&& submissions[j].state == SubmitState::Connecting
                    },
                forall|j: int|
                    0 <= j < n ==> ((#[trigger] submissions[j]).owes_share <==> names(
                        places@.take(k as int),
                        j,
                    )),
            decreases places.len() - k,
        {
            let ghost before = submissions@;
            proof {
                assert(places@.take(k + 1).drop_last() =~= places@.take(k as int));
                assert(places@.take(k + 1).last() == places[k as int]);
            }
            if places[k] < n as u64 {
                let place = places[k] as usize;
                let mut submission = submissions[place];
                submission.owes_share = true;
                submissions[place] = submission;
            }
            proof {
                let wider = places@.take(k + 1);
                let narrower = places@.take(k as int);
                assert forall|j: int| 0 <= j < n implies ((#[trigger] submissions[j]).owes_share
                    <==> names(wider, j)) by {
                    if names(wider, j) {
                        let x = choose|x: int| 0 <= x < wider.len() && wider[x] == j;
                        if x < k {
                            assert(narrower[x] == j);
                        }
                    }
                    if names(narrower, j) {
                        let x = choose|x: int| 0 <= x < narrower.len() && narrower[x] == j;
                        assert(wider[x] == j);
                    }
                    if places[k as int] == j {
                        assert(wider[k as int] == j);
                    }
                }
            }
            k += 1;
        }
        proof {
            assert(places@.take(k as int) =~= places@);
            assert(verifying(submissions@) =~= marks(n as nat, places@));
        }
        submissions
    }

    /// Starts the broadcast of the batch at `index`: one submission for
    /// each server, in canonical order, all of them yet to connect. A
    /// plurality of the servers, picked at random, are verifiers and owe a
    /// witness share; the others only receive the batch.
    pub fn broadcast(&self, index: usize) -> (submissions: Vec<Submission>)
        requires
            index < self.spec_batches().len(),
            plurality_of(self.spec_membership()@.len()) <= usize::MAX / 16,
        ensures
            submissions.len() == self.spec_membership()@.len(),
            forall|i: int|
                0 <= i < submissions.len() ==> {
                    &&& (#[trigger] submissions[i]).server == self.spec_membership()@[i].identity
                    &&& submissions[i].root == self.spec_batches()[index as int].0
                    &&& submissions[i].state == SubmitState::Connecting
                },
            count_set(verifying(submissions@)) == plurality_of(self.spec_membership()@.len()),
    {
        let places = self.draw();
        proof {
            lemma_marks_count(self.spec_membership()@.len(), places@);
        }
        self.assign(index, &places)
    }
}

/// One bit for each of `n` places: set where the place is among `places`.
pub open spec fn marks(n: nat, places: Seq<u64>) -> Seq<bool> {
    Seq::new(n, |j: int| names(places, j))
}

/// Whether `place` is among the places.
pub open spec fn names(places: Seq<u64>, place: int) -> bool {
    exists|x: int| 0 <= x < places.len() && places[x] == place
}

/// Distinct places, all of them below `n`, mark as many bits as there are
/// places.
pub proof fn lemma_marks_count(n: nat, places: Seq<u64>)
    requires
        rising(places),
        forall|k: int| 0 <= k < places.len() ==> places[k] < n,
    ensures
        count_set(marks(n, places)) == places.len(),
    decreases places.len(),
{
    if places.len() == 0 {
        lemma_none_set(marks(n, places));
    } else {
        let front = places.drop_last();
        let last = places.last();
        lemma_marks_count(n, front);
        assert(!names(front, last as int)) by {
            if names(front, last as int) {
                let x = choose|x: int| 0 <= x < front.len() && front[x] == last;
                assert(places[x].place() < places[places.len() - 1].place());
            }
        }
        assert(marks(n, places) =~= marks(n, front).update(last as int, true)) by {
            assert forall|j: int| 0 <= j < n implies marks(n, places)[j] == marks(n, front).update(
                last as int,
                true,
            )[j] by {
                if names(places, j) {
                    let x = choose|x: int| 0 <= x < places.len() && places[x] == j;
                    if x < front.len() {
                        assert(front[x] == j);
                    }
                }
                if names(front, j) {
                    let x = choose|x: int| 0 <= x < front.len() && front[x] == j;
                    assert(places[x] == j);
                }
                if j == last {
                    assert(places[places.len() - 1] == j);
                }
            }
        }
        lemma_count_set_update(marks(n, front), last as int);
    }
}

/// Where no bit is set, the number of bits set is zero.
pub proof fn lemma_none_set(signers: Seq<bool>)
    requires
        forall|i: int| 0 <= i < signers.len() ==> !signers[i],
    ensures
        count_set(signers) == 0,
    decreases signers.len(),
{
    if signers.len() > 0 {
        lemma_none_set(signers.drop_last());
    }
}

} // verus!
