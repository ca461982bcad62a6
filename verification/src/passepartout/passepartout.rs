use vstd::prelude::*;
use crate::crypto::{Identity, KeyCard};
use crate::directory::Directory;
use crate::membership::membership::{identities_differ, stands};
use crate::membership::Membership;

verus! {

/// The participants whose key chains one holder keeps, each by its key
/// card, in the order in which the holder keeps them.
#[derive(Clone, Debug, PartialEq, Eq)]
pub struct Passepartout {
    keycards: Vec<KeyCard>,
}

impl View for Passepartout {
    type V = Seq<KeyCard>;

    closed spec fn view(&self) -> Seq<KeyCard> {
        self.keycards@
    }
}

impl Passepartout {
    pub fn new(keycards: Vec<KeyCard>) -> (passepartout: Passepartout)
        ensures
            passepartout@ == keycards@,
    {
        Passepartout { keycards }
    }

    /// Number of participants.
    pub fn len(&self) -> (len: usize)
        ensures
            len == self@.len(),
    {
        self.keycards.len()
    }

    /// Where the key chain of the participant `identity` is kept: the
    /// first place whose key card has that identity.
    pub fn keychain(&self, identity: &Identity) -> (place: Option<usize>)
        ensures
            place is None <==> forall|i: int|
                0 <= i < self@.len() ==> (#[trigger] self@[i]).identity != *identity,
            place matches Some(p) ==> {
                &&& p < self@.len()
                &&& self@[p as int].identity == *identity
                &&& forall|i: int| 0 <= i < p ==> (#[trigger] self@[i]).identity != *identity
            },
    {
        let mut i: usize = 0;
        while i < self.keycards.len()
            invariant
                i <= self.keycards.len(),
                forall|k: int| 0 <= k < i ==> (#[trigger] self@[k]).identity != *identity,
            decreases self.keycards.len() - i,
        {
            if self.keycards[i].identity.same(identity) {
                assert(self@[i as int].identity == *identity);
                return Some(i);
            }
            i += 1;
        }
        None
    }

    /// Divides the participants into a system: the first `servers` of them
    /// are the servers, and the others are the clients, whose ids count up
    /// from zero in the order in which they are kept. Where no two of the
    /// first `servers` participants have one identity, there are `servers`
    /// servers.
    pub fn system(self, servers: usize) -> (system: (Membership, Directory))
        requires
            servers <= self@.len(),
        ensures
            system.0.well_formed(),
            system.0@.len() <= servers,
            identities_differ(self@.take(servers as int)) ==> system.0@.len() == servers,
            forall|k: int|
                0 <= k < system.0@.len() ==> stands(
                    self@.take(servers as int),
                    #[trigger] system.0@[k],
                ),
            forall|i: int| 0 <= i < servers ==> system.0.has((#[trigger] self@[i]).identity),
            system.1@.len() == self@.len() - servers,
            forall|id: int|
                0 <= id < system.1@.len() ==> (#[trigger] system.1@[id]) == Some(
                    self@[servers + id],
                ),
    {
        let ghost all = self.keycards@;
        let mut first = self.keycards;
        let mut rest = first.split_off(servers);
        assert(first@ =~= all.take(servers as int));
        let membership = Membership::from_servers(first);
        let ghost clients = rest@;
        let mut reversed: Vec<KeyCard> = Vec::new();
        while rest.len() > 0
            invariant
                rest.len() + reversed.len() == clients.len(),
                forall|i: int| 0 <= i < rest.len() ==> rest[i] == clients[i],
                forall|i: int|
                    0 <= i < reversed.len() ==> reversed[i] == clients[clients.len() - 1 - i],
            decreases rest.len(),
        {
            let keycard = rest.pop().unwrap();
            reversed.push(keycard);
        }
        let mut slots: Vec<Option<KeyCard>> = Vec::new();
        while reversed.len() > 0
            invariant
                slots.len() + reversed.len() == clients.len(),
                forall|i: int|
                    0 <= i < reversed.len() ==> reversed[i] == clients[clients.len() - 1 - i],
                forall|i: int| 0 <= i < slots.len() ==> (#[trigger] slots[i]) == Some(clients[i]),
            decreases reversed.len(),
        {
            let keycard = reversed.pop().unwrap();
            slots.push(Some(keycard));
        }
        proof {
            assert forall|i: int| 0 <= i < servers implies membership.has(
                (#[trigger] all[i]).identity,
            ) by {
                assert(all.take(servers as int)[i] == all[i]);
            }
        }
        (membership, Directory::from_slots(slots))
    }
}

} // verus!
