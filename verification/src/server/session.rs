use vstd::prelude::*;
use crate::crypto::Root;
use crate::server::order_statement::OrderStatement;
use crate::server::server::ServeError;
use crate::server::witness_statement::WitnessStatement;

verus! {

/// How far a server has come in a session with a broker.
#[derive(Clone, Copy, Debug, PartialEq, Eq)]
pub enum ServeState {
    /// The batch is still to come.
    AwaitingBatch,
    /// The batch is here; the broker has yet to say whether to verify it.
    AwaitingFlag,
    /// The batch is being taken in.
    Accepting { verify: bool },
    /// The batch is parked, and the witness share is on its way back.
    SendingWitness { root: Root },
    /// The broker's certificate is still to come.
    AwaitingCertificate { root: Root },
    /// The certificate is being decided on.
    Endorsing { root: Root },
    /// The root is being put to the order.
    Submitting { root: Root },
    /// The order share is on its way back.
    SendingOrder { root: Root },
    /// The session came to its end.
    Done,
    /// The session was closed early.
    Closed { error: ServeError },
}

/// What happened since the server's last step.
#[derive(Clone, Copy, Debug, PartialEq, Eq)]
pub enum ServeEvent {
    /// A batch arrived.
    BatchReceived,
    /// The broker's flag arrived.
    FlagReceived { verify: bool },
    /// The batch was accepted, and is parked under `root`.
    Accepted { root: Root },
    /// The batch was refused.
    Refused,
    /// The witness share was sent.
    WitnessSent,
    /// A certificate arrived.
    CertificateReceived,
    /// The certificate passed.
    Endorsed,
    /// The certificate did not pass.
    Rejected,
    /// The root was put to the order.
    Ordered,
    /// The order share was sent.
    OrderSent,
    /// The connection failed.
    ConnectionLost,
}

/// What the server does next.
#[derive(Clone, Copy, Debug, PartialEq, Eq)]
pub enum ServeAction {
    /// Receive the batch.
    ReceiveBatch,
    /// Receive the flag.
    ReceiveFlag,
    /// Decompress the batch and take it in, verified or not.
    Accept { verify: bool },
    /// Sign the statement and send the share.
    SendWitness { statement: WitnessStatement },
    /// Receive the certificate.
    ReceiveCertificate,
    /// Decide on the certificate, which is to witness the statement.
    Endorse { statement: WitnessStatement },
    /// Put the root, with its certificate, to the order.
    Order { root: Root },
    /// Sign the statement and send the share.
    SendOrder { order: OrderStatement },
    /// End the session.
    End,
    /// Close the session.
    Close { error: ServeError },
}

impl ServeState {
    /// Whether the session is over.
    pub open spec fn over(self) -> bool {
        self is Done || self is Closed
    }

    /// What the server is to do in this state.
    pub open spec fn pending(self) -> ServeAction {
        match self {
            ServeState::AwaitingBatch => ServeAction::ReceiveBatch,
            ServeState::AwaitingFlag => ServeAction::ReceiveFlag,
            ServeState::Accepting { verify } => ServeAction::Accept { verify },
            ServeState::SendingWitness { root } => ServeAction::SendWitness {
                statement: WitnessStatement { root },
            },
            ServeState::AwaitingCertificate { root } => ServeAction::ReceiveCertificate,
            ServeState::Endorsing { root } => ServeAction::Endorse {
                statement: WitnessStatement { root },
            },
            ServeState::Submitting { root } => ServeAction::Order { root },
            ServeState::SendingOrder { root } => ServeAction::SendOrder {
                order: OrderStatement { root },
            },
            ServeState::Done => ServeAction::End,
            ServeState::Closed { error } => ServeAction::Close { error },
        }
    }

    /// The state after `event`. A session that is over stays as it is; a
    /// failed connection closes any other; and an event that the state does
    /// not wait for changes nothing.
    pub open spec fn next(self, event: ServeEvent) -> ServeState {
        if self.over() {
            self
        } else if event is ConnectionLost {
            ServeState::Closed { error: ServeError::ConnectionError }
        } else {
            match (self, event) {
                (ServeState::AwaitingBatch, ServeEvent::BatchReceived) => ServeState::AwaitingFlag,
                (ServeState::AwaitingFlag, ServeEvent::FlagReceived { verify }) => ServeState::Accepting {
                    verify,
                },
                (ServeState::Accepting { verify }, ServeEvent::Accepted { root }) => if verify {
                    ServeState::SendingWitness { root }
                } else {
                    ServeState::AwaitingCertificate { root }
                },
                (ServeState::Accepting { verify }, ServeEvent::Refused) => ServeState::Closed {
                    error: ServeError::BatchInvalid,
                },
                (ServeState::SendingWitness { root }, ServeEvent::WitnessSent) => ServeState::AwaitingCertificate {
                    root,
                },
                (
                    ServeState::AwaitingCertificate { root },
                    ServeEvent::CertificateReceived,
                ) => ServeState::Endorsing { root },
                (ServeState::Endorsing { root }, ServeEvent::Endorsed) => ServeState::Submitting {
                    root,
                },
                (ServeState::Endorsing { root }, ServeEvent::Rejected) => ServeState::Closed {
                    error: ServeError::WitnessInvalid,
                },
                (ServeState::Submitting { root }, ServeEvent::Ordered) => ServeState::SendingOrder {
                    root,
                },
                (ServeState::SendingOrder { root }, ServeEvent::OrderSent) => ServeState::Done,
                _ => self,
            }
        }
    }

    /// The state after the events, one after the other.
    pub open spec fn run(self, events: Seq<ServeEvent>) -> ServeState
        decreases events.len(),
    {
        if events.len() == 0 {
            self
        } else {
            self.run(events.drop_last()).next(events.last())
        }
    }

    /// The state in which a session starts, and what to do first.
    pub fn start() -> (begin: (ServeState, ServeAction))
        ensures
            begin.0 == ServeState::AwaitingBatch,
            begin.1 == begin.0.pending(),
    {
        (ServeState::AwaitingBatch, ServeAction::ReceiveBatch)
    }

    /// What the server is to do in this state.
    pub fn action(self) -> (action: ServeAction)
        ensures
            action == self.pending(),
    {
        match self {
            ServeState::AwaitingBatch => ServeAction::ReceiveBatch,
            ServeState::AwaitingFlag => ServeAction::ReceiveFlag,
            ServeState::Accepting { verify } => ServeAction::Accept { verify },
            ServeState::SendingWitness { root } => ServeAction::SendWitness {
                statement: WitnessStatement::new(root),
            },
            ServeState::AwaitingCertificate { root: _ } => ServeAction::ReceiveCertificate,
            ServeState::Endorsing { root } => ServeAction::Endorse {
                statement: WitnessStatement::new(root),
            },
            ServeState::Submitting { root } => ServeAction::Order { root },
            ServeState::SendingOrder { root } => ServeAction::SendOrder {
                order: OrderStatement::new(root),
            },
            ServeState::Done => ServeAction::End,
            ServeState::Closed { error } => ServeAction::Close { error },
        }
    }

    /// Takes one step: the state after `event`, and what to do in it.
    pub fn step(self, event: ServeEvent) -> (after: (ServeState, ServeAction))
        ensures
            after.0 == self.next(event),
            after.1 == after.0.pending(),
    {
        let state = match self {
            ServeState::Done => self,
            ServeState::Closed { error: _ } => self,
            _ => match event {
                ServeEvent::ConnectionLost => ServeState::Closed {
                    error: ServeError::ConnectionError,
                },
                _ => match (self, event) {
                    (ServeState::AwaitingBatch, ServeEvent::BatchReceived) => ServeState::AwaitingFlag,
                    (
                        ServeState::AwaitingFlag,
                        ServeEvent::FlagReceived { verify },
                    ) => ServeState::Accepting { verify },
                    (ServeState::Accepting { verify }, ServeEvent::Accepted { root }) => if verify {
                        ServeState::SendingWitness { root }
                    } else {
                        ServeState::AwaitingCertificate { root }
                    },
                    (ServeState::Accepting { verify: _ }, ServeEvent::Refused) => ServeState::Closed {
                        error: ServeError::BatchInvalid,
                    },
                    (
                        ServeState::SendingWitness { root },
                        ServeEvent::WitnessSent,
                    ) => ServeState::AwaitingCertificate { root },
                    (
                        ServeState::AwaitingCertificate { root },
                        ServeEvent::CertificateReceived,
                    ) => ServeState::Endorsing { root },
                    (ServeState::Endorsing { root }, ServeEvent::Endorsed) => ServeState::Submitting {
                        root,
                    },
                    (ServeState::Endorsing { root: _ }, ServeEvent::Rejected) => ServeState::Closed {
                        error: ServeError::WitnessInvalid,
                    },
                    (ServeState::Submitting { root }, ServeEvent::Ordered) => ServeState::SendingOrder {
                        root,
                    },
                    (ServeState::SendingOrder { root: _ }, ServeEvent::OrderSent) => ServeState::Done,
                    _ => self,
                },
            },
        };
        (state, state.action())
    }
}

/// A root is put to the order only in answer to a certificate that
/// passed: the one step into `Submitting` is from `Endorsing` the same root,
/// on `Endorsed`.
pub proof fn lemma_order_follows_endorsement(state: ServeState, event: ServeEvent, root: Root)
    requires
        state.next(event) == (ServeState::Submitting { root }),
        state != (ServeState::Submitting { root }),
    ensures
        state == (ServeState::Endorsing { root }),
        event == ServeEvent::Endorsed,
{
}

/// A witness share is sent only for a batch that was accepted after the
/// broker asked for verification.
pub proof fn lemma_witness_follows_verification(state: ServeState, event: ServeEvent, root: Root)
    requires
        state.next(event) == (ServeState::SendingWitness { root }),
        state != (ServeState::SendingWitness { root }),
    ensures
        state == (ServeState::Accepting { verify: true }),
        event == (ServeEvent::Accepted { root }),
{
}

/// A session that is over stays as it is, whatever happens.
pub proof fn lemma_over_is_final(state: ServeState, events: Seq<ServeEvent>)
    requires
        state.over(),
    ensures
        state.run(events) == state,
    decreases events.len(),
{
    if events.len() > 0 {
        lemma_over_is_final(state, events.drop_last());
    }
}

} // verus!
