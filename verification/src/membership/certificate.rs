use bit_vec::BitVec;
use vstd::prelude::*;
use crate::crypto::identity::lemma_rank_injective;
use crate::crypto::{Identity, MultiSignature};
use crate::membership::bitmap::{
    bitmap_from_elem, bitmap_get, bitmap_len, bitmap_set, bits, whole,
};
use crate::membership::membership::{plurality_of, quorum_of, Membership};
use crate::sorting::{sort_distinct, Ranked};

verus! {

/// Why a certificate is refused.
#[derive(Clone, Copy, Debug, PartialEq, Eq, Structural)]
pub enum CertificateError {
    /// The aggregate signature does not hold for the servers that the
    /// certificate names, or the certificate is not one of this membership.
    CertificateInvalid,
    /// Fewer servers signed than were asked for.
    NotEnoughSigners,
    /// Two certificates that were to be joined share a signer.
    OverlappingSigners,
}

/// Number of bits that are set.
pub open spec fn count_set(signers: Seq<bool>) -> nat
    decreases signers.len(),
{
    if signers.len() == 0 {
        0
    } else {
        count_set(signers.drop_last()) + if signers.last() {
            1nat
        } else {
            0nat
        }
    }
}

/// Setting a bit that was not set adds one to the number of bits set.
pub proof fn lemma_count_set_update(signers: Seq<bool>, place: int)
    requires
        0 <= place < signers.len(),
        !signers[place],
    ensures
        count_set(signers.update(place, true)) == count_set(signers) + 1,
    decreases signers.len(),
{
    let updated = signers.update(place, true);
    if place == signers.len() - 1 {
        assert(updated.drop_last() =~= signers.drop_last());
    } else {
        assert(updated.drop_last() =~= signers.drop_last().update(place, true));
        lemma_count_set_update(signers.drop_last(), place);
    }
}

/// The places of the bits that are set, in ascending order.
pub open spec fn places_set(signers: Seq<bool>) -> Seq<int>
    decreases signers.len(),
{
    if signers.len() == 0 {
        Seq::empty()
    } else if signers.last() {
        places_set(signers.drop_last()).push(signers.len() - 1)
    } else {
        places_set(signers.drop_last())
    }
}

/// Proof that a set of servers signed one statement: which servers, as one
/// bit for each place in the membership's canonical order, and the
/// aggregate of their signatures.
pub struct Certificate {
    signers: BitVec,
    signature: MultiSignature,
}

impl Certificate {
    /// The bit of each place in the canonical order: set where the server
    /// there signed.
    pub closed spec fn spec_signers(&self) -> Seq<bool> {
        bits(self.signers)
    }

    /// The aggregate signature.
    pub closed spec fn spec_signature(&self) -> MultiSignature {
        self.signature
    }

    /// Number of servers that signed.
    pub open spec fn spec_power(&self) -> nat {
        count_set(self.spec_signers())
    }

    /// Whether the certificate has one bit for each server of the
    /// membership.
    pub open spec fn matches(&self, membership: &Membership) -> bool {
        self.spec_signers().len() == membership@.len()
    }

    /// Whether the certificate passes at the given threshold: it has one
    /// bit for each server, enough of them are set, and the aggregate
    /// signature holds for the servers whose bits are set.
    pub open spec fn passes(&self, membership: &Membership, threshold: nat, genuine: bool) -> bool {
        self.spec_power() >= threshold && self.matches(membership) && genuine
    }

    /// A certificate of the given parts, as they came from the wire. A bit
    /// for which the vector holds no block counts as unset.
    pub fn from_parts(signers: BitVec, signature: MultiSignature) -> (certificate: Certificate)
        ensures
            certificate.spec_signers() == bits(signers),
            certificate.spec_signature() == signature,
    {
        Certificate { signers, signature }
    }

    /// The bit vector of the signers.
    pub fn signers(&self) -> (signers: &BitVec)
        ensures
            bits(*signers) == self.spec_signers(),
    {
        &self.signers
    }

    /// The aggregate signature.
    pub fn signature(&self) -> (signature: &MultiSignature)
        ensures
            *signature == self.spec_signature(),
    {
        &self.signature
    }

    /// The certificate of the servers named by `signers`, whose signatures
    /// over one statement `signature` aggregates. Exactly the bits of those
    /// servers are set. Every signer must be a server of the membership,
    /// and none may occur twice.
    pub fn aggregate(
        membership: &Membership,
        signers: Vec<Identity>,
        signature: MultiSignature,
    ) -> (certificate: Certificate)
        requires
            forall|a: int, b: int|
                0 <= a < signers.len() && 0 <= b < signers.len() && a != b ==> signers[a]
                    != signers[b],
            forall|i: int| 0 <= i < signers.len() ==> membership.has(#[trigger] signers[i]),
        ensures
            certificate.matches(membership),
            forall|m: int|
                0 <= m < membership@.len() ==> (certificate.spec_signers()[m] <==> signers@.contains(
                    (#[trigger] membership@[m]).identity,
                )),
            certificate.spec_power() == signers.len(),
            certificate.spec_signature() == signature,
    {
        let ghost given = signers@;
        let mut sorted = signers;
        proof {
            assert forall|a: int, b: int|
                0 <= a < given.len() && 0 <= b < given.len() && a != b implies given[a].place()
                != given[b].place() by {
                if given[a].rank() == given[b].rank() {
                    lemma_rank_injective(given[a], given[b]);
                }
            }
        }
        sort_distinct(&mut sorted);
        let servers = membership.servers();
        let n = servers.len();
        let mut bitmap = bitmap_from_elem(n, false);
        let ghost mut at: Seq<int> = Seq::empty();
        let mut cursor: usize = 0;
        let mut i: usize = 0;
        proof {
            assert forall|j: int| 0 <= j < sorted.len() implies membership.has(
                #[trigger] sorted@[j],
            ) by {
                assert(given.contains(sorted@[j]));
            }
            assert(bits(bitmap).take(0) =~= Seq::<bool>::empty());
        }
        while i < n
            invariant
                i <= n,
                n == servers.len(),
                servers@ == membership@,
                crate::membership::membership::canonical(servers@),
                crate::sorting::rising(sorted@),
                forall|j: int| 0 <= j < sorted.len() ==> membership.has(#[trigger] sorted@[j]),
                bits(bitmap).len() == n,
                whole(bitmap),
                forall|m: int| i <= m < n ==> !bits(bitmap)[m],
                forall|m: int|
                    0 <= m < i ==> (bits(bitmap)[m] <==> sorted@.contains(
                        (#[trigger] servers@[m]).identity,
                    )),
                count_set(bits(bitmap).take(i as int)) == cursor,
                cursor <= sorted.len(),
                at.len() == cursor,
                forall|j: int|
                    0 <= j < cursor ==> 0 <= #[trigger] at[j] < i && servers@[at[j]].identity
                        == sorted@[j],
                cursor < sorted.len() ==> forall|m: int|
                    0 <= m < i ==> (#[trigger] servers@[m]).identity != sorted@[cursor as int],
            decreases n - i,
        {
            let member = servers[i].identity;
            let hit = cursor < sorted.len() && sorted[cursor].same(&member);
            let ghost before = bits(bitmap);
            proof {
                if hit {
                    assert(sorted@[cursor as int] == member);
                    assert(sorted@.contains(member));
                }
                if sorted@.contains(member) && !hit {
                    let j = choose|j: int| 0 <= j < sorted.len() && sorted@[j] == member;
                    if j < cursor {
                        assert(servers@[at[j]].identity == sorted@[j]);
                        assert(servers@[at[j]].identity.rank() < servers@[i as int].identity.rank());
                    } else if j > cursor {
                        assert(sorted@[cursor as int].place() < sorted@[j].place());
                        assert(membership.has(sorted@[cursor as int]));
                        let m = choose|m: int|
                            0 <= m < membership@.len() && (#[trigger] membership@[m]).identity
                                == sorted@[cursor as int];
                        assert(servers@[m].identity == sorted@[cursor as int]);
                        if m > i {
                            assert(servers@[i as int].identity.rank() < servers@[m].identity.rank());
                        }
                    }
                    assert(false);
                }
            }
            if hit {
                bitmap_set(&mut bitmap, i, true);
                proof {
                    assert(bits(bitmap).take(i + 1).drop_last() =~= before.take(i as int));
                    if cursor + 1 < sorted.len() {
                        assert forall|m: int| 0 <= m < i + 1 implies (#[trigger] servers@[m]).identity
                            != sorted@[cursor + 1] by {
                            assert(sorted@[cursor as int].place() < sorted@[cursor + 1].place());
                            if m < i {
                                assert(servers@[m].identity.rank() < servers@[i as int].identity.rank());
                            }
                        }
                    }
                    at = at.push(i as int);
                }
                cursor += 1;
            } else {
                proof {
                    assert(bits(bitmap).take(i + 1).drop_last() =~= before.take(i as int));
                }
            }
            i += 1;
        }
        proof {
            assert(bits(bitmap).take(n as int) =~= bits(bitmap));
            if cursor < sorted.len() {
                assert(membership.has(sorted@[cursor as int]));
                let m = choose|m: int|
                    0 <= m < membership@.len() && (#[trigger] membership@[m]).identity
                        == sorted@[cursor as int];
                assert(servers@[m].identity == sorted@[cursor as int]);
                assert(false);
            }
            assert forall|m: int| 0 <= m < membership@.len() implies (bits(bitmap)[m]
                <==> given.contains((#[trigger] membership@[m]).identity)) by {
                let identity = membership@[m].identity;
                assert(servers@[m].identity == identity);
                if sorted@.contains(identity) {
                    let j = choose|j: int| 0 <= j < sorted.len() && sorted@[j] == identity;
                    assert(given.contains(sorted@[j]));
                }
                if given.contains(identity) {
                    let j = choose|j: int| 0 <= j < given.len() && given[j] == identity;
                    assert(sorted@.contains(given[j]));
                }
            }
        }
        Certificate { signers: bitmap, signature }
    }

    /// As `aggregate`, for a certificate that is to pass at plurality: at
    /// least a plurality of servers must have signed.
    pub fn aggregate_plurality(
        membership: &Membership,
        signers: Vec<Identity>,
        signature: MultiSignature,
    ) -> (certificate: Certificate)
        requires
            forall|a: int, b: int|
                0 <= a < signers.len() && 0 <= b < signers.len() && a != b ==> signers[a]
                    != signers[b],
            forall|i: int| 0 <= i < signers.len() ==> membership.has(#[trigger] signers[i]),
            signers.len() >= plurality_of(membership@.len()),
        ensures
            certificate.matches(membership),
            forall|m: int|
                0 <= m < membership@.len() ==> (certificate.spec_signers()[m] <==> signers@.contains(
                    (#[trigger] membership@[m]).identity,
                )),
            certificate.spec_power() == signers.len(),
            certificate.spec_power() >= plurality_of(membership@.len()),
            certificate.spec_signature() == signature,
    {
        Certificate::aggregate(membership, signers, signature)
    }

    /// As `aggregate`, for a certificate that is to pass at quorum: at least
    /// a quorum of servers must have signed.
    pub fn aggregate_quorum(
        membership: &Membership,
        signers: Vec<Identity>,
        signature: MultiSignature,
    ) -> (certificate: Certificate)
        requires
            forall|a: int, b: int|
                0 <= a < signers.len() && 0 <= b < signers.len() && a != b ==> signers[a]
                    != signers[b],
            forall|i: int| 0 <= i < signers.len() ==> membership.has(#[trigger] signers[i]),
            signers.len() >= quorum_of(membership@.len()),
        ensures
            certificate.matches(membership),
            forall|m: int|
                0 <= m < membership@.len() ==> (certificate.spec_signers()[m] <==> signers@.contains(
                    (#[trigger] membership@[m]).identity,
                )),
            certificate.spec_power() == signers.len(),
            certificate.spec_power() >= quorum_of(membership@.len()),
            certificate.spec_signature() == signature,
    {
        Certificate::aggregate(membership, signers, signature)
    }

    /// Number of servers that signed: the number of bits that are set.
    pub fn power(&self) -> (power: usize)
        ensures
            power == self.spec_power(),
    {
        let len = bitmap_len(&self.signers);
        let mut power: usize = 0;
        let mut i: usize = 0;
        while i < len
            invariant
                i <= len,
                len == bits(self.signers).len(),
                power == count_set(bits(self.signers).take(i as int)),
                power <= i,
            decreases len - i,
        {
            proof {
                assert(bits(self.signers).take(i + 1).drop_last() =~= bits(self.signers).take(
                    i as int,
                ));
            }
            if bitmap_get(&self.signers, i) == Some(true) {
                power += 1;
            }
            i += 1;
        }
        assert(bits(self.signers).take(len as int) =~= bits(self.signers));
        power
    }

    /// The places in the membership's canonical order of the servers that
    /// signed, ascending: the servers under whose key cards, in this order,
    /// the aggregate signature is to hold. None where the certificate does
    /// not have one bit for each server.
    pub fn selected(&self, membership: &Membership) -> (selected: Option<Vec<usize>>)
        ensures
            selected is Some <==> self.matches(membership),
            selected matches Some(places) ==> {
                &&& places.len() == places_set(self.spec_signers()).len()
                &&& forall|k: int|
                    0 <= k < places.len() ==> places[k] == places_set(self.spec_signers())[k]
            },
    {
        let len = bitmap_len(&self.signers);
        if len != membership.size() {
            return None;
        }
        let mut places: Vec<usize> = Vec::new();
        let mut i: usize = 0;
        while i < len
            invariant
                i <= len,
                len == bits(self.signers).len(),
                places.len() == places_set(bits(self.signers).take(i as int)).len(),
                forall|k: int|
                    0 <= k < places.len() ==> places[k] == places_set(
                        bits(self.signers).take(i as int),
                    )[k],
            decreases len - i,
        {
            proof {
                assert(bits(self.signers).take(i + 1).drop_last() =~= bits(self.signers).take(
                    i as int,
                ));
            }
            if bitmap_get(&self.signers, i) == Some(true) {
                places.push(i);
            }
            i += 1;
        }
        assert(bits(self.signers).take(len as int) =~= bits(self.signers));
        Some(places)
    }

    /// Accepts the certificate's signature, given whether the aggregate
    /// holds for the statement under the key cards of the servers that
    /// `selected` names (`genuine`; false where it names none).
    pub fn verify_raw(&self, membership: &Membership, genuine: bool) -> (verdict: Result<
        (),
        CertificateError,
    >)
        ensures
            verdict is Ok <==> self.matches(membership) && genuine,
            verdict matches Err(error) ==> error == CertificateError::CertificateInvalid,
    {
        if bitmap_len(&self.signers) == membership.size() && genuine {
            Ok(())
        } else {
            Err(CertificateError::CertificateInvalid)
        }
    }

    /// Accepts the certificate if at least `threshold` servers signed and
    /// the signature is accepted. Too few signers are reported before the
    /// signature is looked at.
    pub fn verify_threshold(&self, membership: &Membership, threshold: usize, genuine: bool) -> (verdict:
        Result<(), CertificateError>)
        ensures
            verdict is Ok <==> self.passes(membership, threshold as nat, genuine),
            verdict == Err::<(), CertificateError>(CertificateError::NotEnoughSigners)
                <==> self.spec_power() < threshold,
            verdict == Err::<(), CertificateError>(CertificateError::CertificateInvalid) <==> (
            self.spec_power() >= threshold && !(self.matches(membership) && genuine)),
    {
        if self.power() >= threshold {
            self.verify_raw(membership, genuine)
        } else {
            Err(CertificateError::NotEnoughSigners)
        }
    }

    /// Accepts the certificate if at least a plurality of the membership
    /// signed and the signature is accepted.
    pub fn verify_plurality(&self, membership: &Membership, genuine: bool) -> (verdict: Result<
        (),
        CertificateError,
    >)
        ensures
            verdict is Ok <==> self.passes(membership, plurality_of(membership@.len()), genuine),
            verdict == Err::<(), CertificateError>(CertificateError::NotEnoughSigners)
                <==> self.spec_power() < plurality_of(membership@.len()),
            verdict == Err::<(), CertificateError>(CertificateError::CertificateInvalid) <==> (
            self.spec_power() >= plurality_of(membership@.len()) && !(self.matches(membership)
                && genuine)),
    {
        self.verify_threshold(membership, membership.plurality(), genuine)
    }

    /// Accepts the certificate if at least a quorum of the membership
    /// signed and the signature is accepted.
    pub fn verify_quorum(&self, membership: &Membership, genuine: bool) -> (verdict: Result<
        (),
        CertificateError,
    >)
        ensures
            verdict is Ok <==> self.passes(membership, quorum_of(membership@.len()), genuine),
            verdict == Err::<(), CertificateError>(CertificateError::NotEnoughSigners)
                <==> self.spec_power() < quorum_of(membership@.len()),
            verdict == Err::<(), CertificateError>(CertificateError::CertificateInvalid) <==> (
            self.spec_power() >= quorum_of(membership@.len()) && !(self.matches(membership)
                && genuine)),
    {
        self.verify_threshold(membership, membership.quorum(), genuine)
    }
}

} // verus!
