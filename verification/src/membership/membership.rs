use vstd::prelude::*;
use crate::crypto::{Identity, KeyCard, Order};

verus! {

/// Number of servers that always includes a correct one: one more than a
/// third of the others, rounded down.
pub open spec fn plurality_of(n: nat) -> nat {
    ((n - 1) / 3 + 1) as nat
}

/// Number of servers such that any two such sets share a plurality.
pub open spec fn quorum_of(n: nat) -> nat {
    (n - plurality_of(n) + 1) as nat
}

/// Among at least one server, a plurality is at least one server and at
/// most a quorum, a quorum is at most all servers, and a quorum and a
/// plurality together are one more than all servers. Among `3f + 1`
/// servers, a plurality is `f + 1` and a quorum `2f + 1`.
pub proof fn lemma_thresholds(n: nat, f: nat)
    requires
        n >= 1,
    ensures
        1 <= plurality_of(n) <= quorum_of(n) <= n,
        plurality_of(n) + quorum_of(n) == n + 1,
        n == 3 * f + 1 ==> plurality_of(n) == f + 1 && quorum_of(n) == 2 * f + 1,
{
}

/// The identities of the key cards rise strictly along the sequence.
pub open spec fn canonical(servers: Seq<KeyCard>) -> bool {
    forall|a: int, b: int|
        0 <= a < b < servers.len() ==> servers[a].identity.rank() < servers[b].identity.rank()
}

/// No two key cards of the sequence have the same identity.
pub open spec fn identities_differ(servers: Seq<KeyCard>) -> bool {
    forall|a: int, b: int|
        0 <= a < servers.len() && 0 <= b < servers.len() && a != b ==> servers[a].identity
            != servers[b].identity
}

/// Whether the key card at `index` is the last of the sequence with its
/// identity.
pub open spec fn prevails(servers: Seq<KeyCard>, index: int) -> bool {
    &&& 0 <= index < servers.len()
    &&& forall|later: int|
        index < later < servers.len() ==> (#[trigger] servers[later]).identity
            != servers[index].identity
}

/// Whether the key card is one of the sequence, and the last with its
/// identity.
pub open spec fn stands(servers: Seq<KeyCard>, keycard: KeyCard) -> bool {
    exists|i: int| prevails(servers, i) && servers[i] == keycard
}

/// The servers' key cards in canonical order: ascending by identity, one
/// card for each identity.
#[derive(Debug, PartialEq, Eq)]
pub struct Membership {
    servers: Vec<KeyCard>,
}

impl View for Membership {
    type V = Seq<KeyCard>;

    closed spec fn view(&self) -> Seq<KeyCard> {
        self.servers@
    }
}

impl Membership {
    /// The key cards are in canonical order.
    #[verifier::type_invariant]
    pub open spec fn well_formed(&self) -> bool {
        canonical(self@)
    }

    /// Whether a server has the identity.
    pub open spec fn has(&self, identity: Identity) -> bool {
        exists|i: int| 0 <= i < self@.len() && (#[trigger] self@[i]).identity == identity
    }

    /// The membership of the given servers. Where several key cards have
    /// one identity, the last of them stands for it; so there are at most
    /// as many servers as key cards, and as many where no two key cards
    /// have one identity.
    pub fn from_servers(servers: Vec<KeyCard>) -> (membership: Membership)
        ensures
            membership.well_formed(),
            membership@.len() <= servers.len(),
            identities_differ(servers@) ==> membership@.len() == servers.len(),
            forall|k: int|
                0 <= k < membership@.len() ==> stands(servers@, #[trigger] membership@[k]),
            forall|i: int|
                0 <= i < servers.len() ==> membership.has((#[trigger] servers@[i]).identity),
    {
        let ghost given = servers@;
        let mut waiting = servers;
        let mut queue: Vec<KeyCard> = Vec::new();
        // Key cards leave a vector from its end: turn the vector round, so
        // that they are seated in the order given.
        while waiting.len() > 0
            invariant
                waiting.len() + queue.len() == given.len(),
                forall|i: int| 0 <= i < queue.len() ==> queue[i] == given[given.len() - 1 - i],
                forall|i: int| 0 <= i < waiting.len() ==> waiting[i] == given[i],
            decreases waiting.len(),
        {
            let keycard = waiting.pop().unwrap();
            queue.push(keycard);
        }
        let mut seated: Vec<KeyCard> = Vec::new();
        let mut done: usize = 0;
        // `source[k]` is the place in `given` of the card now at `k`;
        // `seat[i]` is where the identity of `given[i]` sits now.
        let ghost mut source: Seq<int> = Seq::empty();
        let ghost mut seat: Seq<int> = Seq::empty();
        while queue.len() > 0
            invariant
                given.len() <= usize::MAX,
                done + queue.len() == given.len(),
                forall|i: int| 0 <= i < queue.len() ==> queue[i] == given[given.len() - 1 - i],
                canonical(seated@),
                source.len() == seated.len(),
                seat.len() == done,
                seated.len() <= done,
                identities_differ(given) ==> seated.len() == done,
                forall|k: int|
                    0 <= k < seated.len() ==> 0 <= #[trigger] source[k] < done && seated@[k]
                        == given[source[k]],
                forall|k: int, later: int|
                    0 <= k < seated.len() && source[k] < later < done ==> (#[trigger] given[later]).identity
                        != (#[trigger] seated@[k]).identity,
                forall|i: int|
                    0 <= i < done ==> 0 <= #[trigger] seat[i] < seated.len() && seated@[seat[i]].identity
                        == given[i].identity,
            decreases queue.len(),
        {
            let keycard = queue.pop().unwrap();
            assert(keycard == given[done as int]);
            let mut position: usize = 0;
            let mut found = false;
            while position < seated.len()
                invariant_except_break
                    !found,
                invariant
                    position <= seated.len(),
                    forall|k: int|
                        0 <= k < position ==> seated@[k].identity.rank() < keycard.identity.rank(),
                ensures
                    position <= seated.len(),
                    forall|k: int|
                        0 <= k < position ==> seated@[k].identity.rank() < keycard.identity.rank(),
                    found ==> position < seated.len() && seated@[position as int].identity
                        == keycard.identity,
                    !found && position < seated.len() ==> seated@[position as int].identity.rank()
                        > keycard.identity.rank(),
                decreases seated.len() - position,
            {
                match seated[position].identity.compare(&keycard.identity) {
                    Order::Before => {
                        position += 1;
                    },
                    Order::Same => {
                        found = true;
                        break ;
                    },
                    Order::After => {
                        break ;
                    },
                }
            }
            let ghost before = seated@;
            if found {
                proof {
                    if identities_differ(given) {
                        assert(seated@[position as int] == given[source[position as int]]);
                        assert(given[source[position as int]].identity == given[done as int].identity);
                        assert(false);
                    }
                }
                seated[position] = keycard;
                proof {
                    source = source.update(position as int, done as int);
                    seat = seat.push(position as int);
                    assert forall|k: int, later: int|
                        0 <= k < seated.len() && source[k] < later < done + 1 implies (#[trigger] given[later]).identity
                        != (#[trigger] seated@[k]).identity by {
                        if k != position {
                            assert(before[k].identity.rank() != before[position as int].identity.rank());
                        }
                    }
                }
            } else {
                seated.insert(position, keycard);
                proof {
                    source = source.insert(position as int, done as int);
                    seat = Seq::new(
                        done as nat,
                        |i: int|
                            if seat[i] >= position {
                                seat[i] + 1
                            } else {
                                seat[i]
                            },
                    ).push(position as int);
                    assert forall|a: int, b: int| 0 <= a < b < seated.len() implies seated@[a].identity.rank()
                        < seated@[b].identity.rank() by {
                        if a < position && b > position {
                            assert(before[a].identity.rank() < before[b - 1].identity.rank());
                        } else if a == position {
                            assert(before[position as int].identity.rank() <= before[b
                                - 1].identity.rank());
                        }
                    }
                    assert forall|k: int, later: int|
                        0 <= k < seated.len() && source[k] < later < done + 1 implies (#[trigger] given[later]).identity
                        != (#[trigger] seated@[k]).identity by {
                        if k < position {
                            assert(seated@[k] == before[k]);
                        } else if k > position {
                            assert(seated@[k] == before[k - 1]);
                            assert(before[position as int].identity.rank() <= before[k
                                - 1].identity.rank());
                        }
                    }
                }
            }
            done += 1;
        }
        let membership = Membership { servers: seated };
        proof {
            assert forall|k: int| 0 <= k < membership@.len() implies stands(
                given,
                #[trigger] membership@[k],
            ) by {
                assert(prevails(given, source[k]));
                assert(given[source[k]] == membership@[k]);
            }
            assert forall|i: int| 0 <= i < given.len() implies membership.has(
                (#[trigger] given[i]).identity,
            ) by {
                assert(membership@[seat[i]].identity == given[i].identity);
            }
        }
        membership
    }

    /// The servers' key cards, in canonical order.
    pub fn servers(&self) -> (servers: &Vec<KeyCard>)
        ensures
            servers@ == self@,
            canonical(servers@),
    {
        proof {
            use_type_invariant(self);
        }
        &self.servers
    }

    /// Number of servers.
    pub fn size(&self) -> (size: usize)
        ensures
            size == self@.len(),
    {
        self.servers.len()
    }

    /// Where the server of the given identity stands in the canonical
    /// order.
    pub fn position(&self, identity: &Identity) -> (position: Option<usize>)
        ensures
            position is Some <==> self.has(*identity),
            position matches Some(p) ==> p < self@.len() && self@[p as int].identity == *identity,
    {
        let mut i: usize = 0;
        while i < self.servers.len()
            invariant
                i <= self.servers.len(),
                forall|k: int| 0 <= k < i ==> (#[trigger] self@[k]).identity != *identity,
            decreases self.servers.len() - i,
        {
            if self.servers[i].identity.same(identity) {
                assert(self@[i as int].identity == *identity);
                return Some(i);
            }
            i += 1;
        }
        None
    }

    /// One more than a third of the other servers, rounded down.
    pub fn plurality(&self) -> (plurality: usize)
        ensures
            plurality == plurality_of(self@.len()),
    {
        let n = self.servers.len();
        if n == 0 {
            0
        } else {
            (n - 1) / 3 + 1
        }
    }

    /// As many servers as leave out fewer than a plurality.
    pub fn quorum(&self) -> (quorum: usize)
        ensures
            quorum == quorum_of(self@.len()),
    {
        let n = self.servers.len();
        if n == 0 {
            1
        } else {
            n - self.plurality() + 1
        }
    }
}

} // verus!
