use vstd::prelude::*;
use crate::batch::batch::{Batch, BatchError};
use crate::batch::payload::Payload;
use crate::crypto::Signature;
use crate::directory::Directory;

verus! {

/// The ids grow strictly from each payload to the next.
pub open spec fn ascending(payloads: Seq<Payload>) -> bool {
    forall|i: int, j: int| 0 <= i < j < payloads.len() ==> payloads[i].id < payloads[j].id
}

/// Whether one of the payloads has the id.
pub open spec fn holds_id(payloads: Seq<Payload>, id: u64) -> bool {
    exists|i: int| 0 <= i < payloads.len() && payloads[i].id == id
}

/// The ids of the straggler entries, in order.
pub open spec fn straggler_ids(stragglers: Seq<(u64, Signature)>) -> Seq<u64> {
    Seq::new(stragglers.len(), |i: int| stragglers[i].0)
}

/// The straggler ids grow strictly, and each is the id of a payload: no
/// entry is left over when payloads and entries are walked side by side.
pub open spec fn fits(stragglers: Seq<u64>, payloads: Seq<Payload>) -> bool {
    &&& forall|i: int, j: int| 0 <= i < j < stragglers.len() ==> stragglers[i] < stragglers[j]
    &&& forall|k: int| 0 <= k < stragglers.len() ==> holds_id(payloads, #[trigger] stragglers[k])
}

/// The payloads, in order, whose id is among the straggler ids
/// (`straggling`), or is not: the stragglers, or the reducers.
pub open spec fn chosen(payloads: Seq<Payload>, stragglers: Seq<u64>, straggling: bool) -> Seq<
    Payload,
>
    decreases payloads.len(),
{
    if payloads.len() == 0 {
        Seq::empty()
    } else if stragglers.contains(payloads.last().id) == straggling {
        chosen(payloads.drop_last(), stragglers, straggling).push(payloads.last())
    } else {
        chosen(payloads.drop_last(), stragglers, straggling)
    }
}

/// The directory holds a key card for every payload's id.
pub open spec fn resolved(directory: &Directory, payloads: Seq<Payload>) -> bool {
    forall|i: int| 0 <= i < payloads.len() ==> directory.knows(#[trigger] payloads[i].id)
}

/// Ids that grow from each payload to its neighbour grow along the whole
/// sequence.
pub proof fn lemma_ascending(payloads: Seq<Payload>, i: int, j: int)
    requires
        forall|a: int| 0 < a < payloads.len() ==> payloads[a - 1].id < (#[trigger] payloads[a]).id,
        0 <= i < j < payloads.len(),
    ensures
        payloads[i].id < payloads[j].id,
    decreases j - i,
{
    if i + 1 < j {
        lemma_ascending(payloads, i, j - 1);
    }
}

/// What is left to check by signature once a batch is found sound: each
/// straggler's own signature over its message, and the reducers' aggregate
/// over the batch's root.
#[derive(Clone, Debug, PartialEq, Eq)]
pub struct Audit {
    /// The payloads signed one by one, in order; the signature of the k-th
    /// is the k-th straggler entry's.
    pub stragglers: Vec<Payload>,
    /// The payloads whose clients signed the reduction together, in order.
    pub reducers: Vec<Payload>,
}

impl Batch {
    /// The straggler ids of the batch, in order.
    pub open spec fn spec_straggler_ids(&self) -> Seq<u64> {
        straggler_ids(self.spec_stragglers()@)
    }

    /// The reducers of the batch: its payloads that are no stragglers.
    pub open spec fn spec_reducers(&self) -> Seq<Payload> {
        chosen(self.spec_payloads(), self.spec_straggler_ids(), false)
    }

    /// Everything that can be said of the batch without checking a
    /// signature: ids ascend, every id is in the directory, the stragglers
    /// are payloads of the batch, and there is a reduction if there is a
    /// reducer.
    pub open spec fn sound(&self, directory: &Directory) -> bool {
        &&& ascending(self.spec_payloads())
        &&& resolved(directory, self.spec_payloads())
        &&& fits(self.spec_straggler_ids(), self.spec_payloads())
        &&& (self.spec_reducers().len() > 0 ==> self.spec_reduction() is Some)
    }

    /// The batch is sound and its signatures hold: `stragglers_genuine` has
    /// one outcome for each straggler entry, in order, and
    /// `reduction_genuine` is the outcome for the reduction.
    pub open spec fn authentic(
        &self,
        directory: &Directory,
        stragglers_genuine: Seq<bool>,
        reduction_genuine: bool,
    ) -> bool {
        &&& self.sound(directory)
        &&& stragglers_genuine.len() == self.spec_straggler_ids().len()
        &&& forall|k: int| 0 <= k < stragglers_genuine.len() ==> stragglers_genuine[k]
        &&& (self.spec_reducers().len() > 0 ==> reduction_genuine)
    }

    /// Checks the batch as far as no signature is needed, and tells which
    /// payloads are covered by which signature.
    pub fn audit(&self, directory: &Directory) -> (audit: Result<Audit, BatchError>)
        ensures
            audit is Ok <==> self.sound(directory),
            audit matches Ok(a) ==> {
                &&& a.stragglers@ == chosen(
                    self.spec_payloads(),
                    self.spec_straggler_ids(),
                    true,
                )
                &&& a.reducers@ == self.spec_reducers()
            },
    {
        let payloads = self.payloads();
        let ghost p = payloads@;
        let mut i: usize = 1;
        while i < payloads.len()
            invariant
                1 <= i,
                p == payloads@,
                p == self.spec_payloads(),
                forall|a: int| 0 < a < i && a < p.len() ==> p[a - 1].id < (#[trigger] p[a]).id,
            decreases payloads.len() - i,
        {
            if payloads[i].id <= payloads[i - 1].id {
                assert(!ascending(p)) by {
                    assert(!(p[i - 1].id < p[i as int].id));
                }
                return Err(BatchError::BatchInvalid);
            }
            i += 1;
        }
        assert(ascending(p)) by {
            assert forall|a: int, b: int| 0 <= a < b < p.len() implies p[a].id < p[b].id by {
                lemma_ascending(p, a, b);
            }
        }
        let stragglers = self.stragglers();
        let ghost s = straggler_ids(stragglers@);
        let mut found: Vec<Payload> = Vec::new();
        let mut reducers: Vec<Payload> = Vec::new();
        let ghost mut at: Seq<int> = Seq::empty();
        let mut k: usize = 0;
        let mut i: usize = 0;
        while i < payloads.len()
            invariant
                p == payloads@,
                p == self.spec_payloads(),
                s == straggler_ids(stragglers@),
                s == self.spec_straggler_ids(),
                ascending(p),
                i <= p.len(),
                k <= s.len(),
                forall|m: int| 0 <= m < i ==> directory.knows(#[trigger] p[m].id),
                at.len() == k,
                forall|j: int| 0 <= j < k ==> 0 <= #[trigger] at[j] < i && p[at[j]].id == s[j],
                forall|a: int, b: int| 0 <= a < b < k ==> s[a] < s[b],
                fits(s, p) && k < s.len() ==> forall|m: int| 0 <= m < i ==> p[m].id != s[k as int],
                fits(s, p) ==> found@ == chosen(p.take(i as int), s, true),
                fits(s, p) ==> reducers@ == chosen(p.take(i as int), s, false),
            decreases payloads.len() - i,
        {
            let payload = payloads[i];
            if directory.keycard(payload.id).is_none() {
                assert(!resolved(directory, p)) by {
                    assert(!directory.knows(p[i as int].id));
                }
                return Err(BatchError::BatchInvalid);
            }
            let straggling = k < stragglers.len() && stragglers[k].0 == payload.id;
            proof {
                assert(p.take(i + 1).drop_last() =~= p.take(i as int));
                assert(p.take(i + 1).last() == payload);
                if straggling {
                    assert(s[k as int] == payload.id);
                    assert(s.contains(payload.id));
                }
                if fits(s, p) && s.contains(payload.id) && !straggling {
                    let j = choose|j: int| 0 <= j < s.len() && s[j] == payload.id;
                    if j < k {
                        assert(p[at[j]].id == s[j]);
                        assert(at[j] < i);
                    } else if j > k {
                        assert(s[k as int] < s[j]);
                        assert(holds_id(p, s[k as int]));
                        let m = choose|m: int| 0 <= m < p.len() && p[m].id == s[k as int];
                        if m > i {
                            assert(p[i as int].id < p[m].id);
                        }
                        assert(m < i);
                    }
                    assert(false);
                }
            }
            if straggling {
                found.push(payload);
                proof {
                    assert forall|a: int| 0 <= a < k implies s[a] < s[k as int] by {
                        assert(p[at[a]].id == s[a]);
                        assert(p[at[a]].id < p[i as int].id);
                    }
                    at = at.push(i as int);
                    if fits(s, p) && k + 1 < s.len() {
                        assert forall|m: int| 0 <= m < i + 1 implies p[m].id != s[k + 1] by {
                            assert(s[k as int] < s[k + 1]);
                            if m < i {
                                assert(p[m].id < p[i as int].id);
                            }
                        }
                    }
                }
                k += 1;
            } else {
                reducers.push(payload);
            }
            i += 1;
        }
        assert(p.take(i as int) =~= p);
        if k < stragglers.len() {
            assert(!fits(s, p)) by {
                if fits(s, p) {
                    assert(holds_id(p, s[k as int]));
                }
            }
            return Err(BatchError::BatchInvalid);
        }
        assert(fits(s, p)) by {
            assert forall|j: int| 0 <= j < s.len() implies holds_id(p, #[trigger] s[j]) by {
                assert(p[at[j]].id == s[j]);
            }
        }
        if reducers.len() > 0 && self.reduction().is_none() {
            return Err(BatchError::BatchInvalid);
        }
        Ok(Audit { stragglers: found, reducers })
    }

    /// Decides whether the batch is accepted, given the outcome of each
    /// signature check that `audit` leaves open: one for each straggler
    /// entry, in order, and one for the reduction (which counts only where
    /// the batch has a reducer). The batch is accepted if and only if it is
    /// sound and every outcome that counts is positive.
    pub fn verify(
        &self,
        directory: &Directory,
        stragglers_genuine: &Vec<bool>,
        reduction_genuine: bool,
    ) -> (verdict: Result<(), BatchError>)
        ensures
            verdict is Ok <==> self.authentic(directory, stragglers_genuine@, reduction_genuine),
    {
        let audit = match self.audit(directory) {
            Ok(audit) => audit,
            Err(error) => {
                return Err(error);
            },
        };
        if stragglers_genuine.len() != self.stragglers().len() {
            return Err(BatchError::BatchInvalid);
        }
        let mut k: usize = 0;
        while k < stragglers_genuine.len()
            invariant
                k <= stragglers_genuine.len(),
                forall|j: int| 0 <= j < k ==> stragglers_genuine[j],
            decreases stragglers_genuine.len() - k,
        {
            if !stragglers_genuine[k] {
                return Err(BatchError::BatchInvalid);
            }
            k += 1;
        }
        if audit.reducers.len() > 0 && !reduction_genuine {
            return Err(BatchError::BatchInvalid);
        }
        Ok(())
    }
}

} // verus!
