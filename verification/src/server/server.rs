use vstd::prelude::*;
use crate::batch::Batch;
use crate::crypto::Root;
use crate::directory::Directory;
use crate::membership::membership::plurality_of;
use crate::membership::{Certificate, Membership};
use crate::server::order_statement::OrderStatement;
use crate::server::parking::Parking;
use crate::server::witness_statement::WitnessStatement;

verus! {

/// Number of batches that a server verifies at one time.
pub const TASKS: usize = 128;

/// Milliseconds between two looks for a delivered batch that is not yet
/// parked.
pub const BATCH_POLL: u64 = 100;

/// Why a server closes a session.
#[derive(Clone, Copy, Debug, PartialEq, Eq, Structural)]
pub enum ServeError {
    /// The connection failed.
    ConnectionError,
    /// The submitted batch is refused.
    BatchInvalid,
    /// The certificate does not witness the batch at plurality.
    WitnessInvalid,
}

/// Why a server passes over a delivery.
#[derive(Clone, Copy, Debug, PartialEq, Eq, Structural)]
pub enum ProcessError {
    /// The delivered bytes are no root with a certificate.
    DeserializeFailed,
    /// The certificate does not witness the root at plurality.
    WitnessInvalid,
}

/// What becomes of a delivery.
#[derive(Debug, PartialEq, Eq)]
pub enum Delivery {
    /// It is passed over.
    Dropped(ProcessError),
    /// It is in order, but its batch is not parked yet: look again after
    /// `BATCH_POLL` milliseconds.
    Pending(Root),
    /// Its batch leaves the parking for the application.
    Released(Batch),
}

/// What a server knows and keeps: the servers, the clients' key cards, and
/// the batches that it has accepted and not yet delivered.
#[derive(Debug)]
pub struct Server {
    membership: Membership,
    directory: Directory,
    parking: Parking,
}

impl Server {
    /// The servers.
    pub closed spec fn spec_membership(&self) -> Membership {
        self.membership
    }

    /// The clients' key cards.
    pub closed spec fn spec_directory(&self) -> Directory {
        self.directory
    }

    /// The parked batches, by root.
    pub closed spec fn parked(&self) -> Map<Root, Batch> {
        self.parking@
    }

    /// What becomes of a delivery whose bytes decoded to `root` (or to
    /// nothing), given what is parked and whether the certificate passes at
    /// plurality.
    pub open spec fn decided(parked: Map<Root, Batch>, root: Option<Root>, passes: bool) -> Delivery {
        match root {
            None => Delivery::Dropped(ProcessError::DeserializeFailed),
            Some(root) => if !passes {
                Delivery::Dropped(ProcessError::WitnessInvalid)
            } else if parked.contains_key(root) {
                Delivery::Released(parked[root])
            } else {
                Delivery::Pending(root)
            },
        }
    }

    /// What is parked after that delivery: all but the batch released.
    pub open spec fn left(parked: Map<Root, Batch>, root: Option<Root>, passes: bool) -> Map<
        Root,
        Batch,
    > {
        match root {
            Some(root) => if passes {
                parked.remove(root)
            } else {
                parked
            },
            None => parked,
        }
    }

    /// A server with nothing parked.
    pub fn new(membership: Membership, directory: Directory) -> (server: Server)
        ensures
            server.spec_membership() == membership,
            server.spec_directory() == directory,
            server.parked() == Map::<Root, Batch>::empty(),
    {
        Server { membership, directory, parking: Parking::new() }
    }

    /// The servers.
    pub fn membership(&self) -> (membership: &Membership)
        ensures
            *membership == self.spec_membership(),
    {
        &self.membership
    }

    /// The clients' key cards.
    pub fn directory(&self) -> (directory: &Directory)
        ensures
            *directory == self.spec_directory(),
    {
        &self.directory
    }

    /// Whether a batch is parked under `root`.
    pub fn holds(&self, root: &Root) -> (held: bool)
        ensures
            held == self.parked().contains_key(*root),
    {
        self.parking.holds(root)
    }

    /// Number of parked batches.
    pub fn parked_count(&self) -> (count: usize)
        ensures
            self.parked().dom().finite(),
            count == self.parked().dom().len(),
    {
        self.parking.len()
    }

    /// Takes in a submitted batch whose root is `root`. Where the broker
    /// asked for verification (`verify`), the batch is first verified,
    /// given the outcomes of its signature checks, and refused if it
    /// fails; a refused batch is not parked. Otherwise the batch is parked
    /// under its root, and a verifier is told what to sign as its witness.
    pub fn accept(
        &mut self,
        batch: Batch,
        root: Root,
        verify: bool,
        stragglers_genuine: &Vec<bool>,
        reduction_genuine: bool,
    ) -> (accepted: Result<Option<WitnessStatement>, ServeError>)
        ensures
            final(self).spec_membership() == old(self).spec_membership(),
            final(self).spec_directory() == old(self).spec_directory(),
            accepted is Ok <==> (verify ==> batch.authentic(
                &old(self).spec_directory(),
                stragglers_genuine@,
                reduction_genuine,
            )),
            accepted matches Ok(witness) ==> {
                &&& final(self).parked() == old(self).parked().insert(root, batch)
                &&& witness == if verify {
                    Some(WitnessStatement { root })
                } else {
                    None
                }
            },
            accepted matches Err(error) ==> {
                &&& error == ServeError::BatchInvalid
                &&& final(self).parked() == old(self).parked()
            },
    {
        if verify {
            if batch.verify(&self.directory, stragglers_genuine, reduction_genuine).is_err() {
                return Err(ServeError::BatchInvalid);
            }
        }
        self.parking.park(root, batch);
        if verify {
            Ok(Some(WitnessStatement::new(root)))
        } else {
            Ok(None)
        }
    }

    /// Decides on the certificate that a broker sent for `root`, given
    /// whether its signature holds over the witness statement of `root`
    /// under the key cards that `Certificate::selected` names. A
    /// certificate that passes at plurality lets the root be put to the
    /// order; the server then signs the order statement returned.
    pub fn endorse(&self, root: Root, certificate: &Certificate, genuine: bool) -> (endorsed: Result<
        OrderStatement,
        ServeError,
    >)
        ensures
            endorsed is Ok <==> certificate.passes(
                &self.spec_membership(),
                plurality_of(self.spec_membership()@.len()),
                genuine,
            ),
            endorsed matches Ok(statement) ==> statement == (OrderStatement { root }),
            endorsed matches Err(error) ==> error == ServeError::WitnessInvalid,
    {
        match certificate.verify_plurality(&self.membership, genuine) {
            Ok(()) => Ok(OrderStatement::new(root)),
            Err(_) => Err(ServeError::WitnessInvalid),
        }
    }

    /// Decides on a delivery. `submission` is what decoding the delivered
    /// bytes gave, and `genuine` whether the certificate's signature holds
    /// over the witness statement of the root. Bytes that decode to
    /// nothing are passed over, and so is a certificate that does not pass
    /// at plurality. Otherwise the batch parked under the root is released,
    /// if it is there already.
    pub fn process(&mut self, submission: Option<(Root, Certificate)>, genuine: bool) -> (delivery:
        Delivery)
        ensures
            final(self).spec_membership() == old(self).spec_membership(),
            final(self).spec_directory() == old(self).spec_directory(),
            submission is None ==> {
                &&& delivery == Server::decided(old(self).parked(), None, false)
                &&& final(self).parked() == old(self).parked()
            },
            submission matches Some((root, certificate)) ==> {
                let passes = certificate.passes(
                    &old(self).spec_membership(),
                    plurality_of(old(self).spec_membership()@.len()),
                    genuine,
                );
                &&& delivery == Server::decided(old(self).parked(), Some(root), passes)
                &&& final(self).parked() == Server::left(old(self).parked(), Some(root), passes)
            },
    {
        let (root, certificate) = match submission {
            Some(submission) => submission,
            None => {
                return Delivery::Dropped(ProcessError::DeserializeFailed);
            },
        };
        if certificate.verify_plurality(&self.membership, genuine).is_err() {
            return Delivery::Dropped(ProcessError::WitnessInvalid);
        }
        match self.parking.release(&root) {
            Some(batch) => Delivery::Released(batch),
            None => {
                assert(self.parking@ =~= old(self).parking@);
                Delivery::Pending(root)
            },
        }
    }

    /// Looks again for the batch of a pending delivery, and releases it if
    /// it is parked by now.
    pub fn poll(&mut self, root: &Root) -> (batch: Option<Batch>)
        ensures
            final(self).spec_membership() == old(self).spec_membership(),
            final(self).spec_directory() == old(self).spec_directory(),
            old(self).parked().contains_key(*root) ==> batch == Some(old(self).parked()[*root]),
            !old(self).parked().contains_key(*root) ==> batch is None,
            final(self).parked() == old(self).parked().remove(*root),
    {
        self.parking.release(root)
    }
}

/// A delivery that is passed over, because its bytes decode to nothing or
/// its certificate does not pass, changes nothing of what is parked; so the
/// delivery after it is decided as if the first had not come, and releases
/// its batch if the batch is parked and its certificate passes.
pub proof fn lemma_dropped_changes_nothing(
    parked: Map<Root, Batch>,
    first: Option<Root>,
    root: Root,
    passes: bool,
)
    ensures
        Server::decided(parked, first, false) is Dropped,
        Server::left(parked, first, false) == parked,
        Server::decided(parked, None, passes) is Dropped,
        Server::left(parked, None, passes) == parked,
        Server::decided(Server::left(parked, first, false), Some(root), passes) == Server::decided(
            parked,
            Some(root),
            passes,
        ),
        parked.contains_key(root) ==> Server::decided(
            Server::left(parked, first, false),
            Some(root),
            true,
        ) == Delivery::Released(parked[root]),
{
}

/// Only a delivery whose certificate passes releases a batch, and only the
/// batch that is parked under the delivered root; it is parked no longer
/// afterwards, so it is released once.
pub proof fn lemma_released_once(parked: Map<Root, Batch>, root: Option<Root>, passes: bool)
    requires
        Server::decided(parked, root, passes) is Released,
    ensures
        passes,
        root is Some,
        parked.contains_key(root->0),
        Server::decided(parked, root, passes) == Delivery::Released(parked[root->0]),
        !Server::left(parked, root, passes).contains_key(root->0),
        Server::decided(Server::left(parked, root, passes), root, passes) == Delivery::Pending(
            root->0,
        ),
{
}

} // verus!
