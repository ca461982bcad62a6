use vstd::prelude::*;
use crate::crypto::{Identity, Root};
use crate::server::WitnessStatement;

verus! {

/// How far a broker has come in submitting a batch to one server.
#[derive(Clone, Copy, Debug, PartialEq, Eq, Structural)]
pub enum SubmitState {
    /// No session is open.
    Connecting,
    /// The batch is on its way.
    SendingBatch,
    /// The flag is on its way.
    SendingFlag,
    /// The server's witness share is still to come.
    AwaitingWitness,
    /// The witness share is being checked.
    CheckingWitness,
    /// The witness share is on its way to where shares are aggregated.
    Publishing,
    /// The certificate is not aggregated yet.
    AwaitingCertificate,
    /// The certificate is on its way.
    SendingCertificate,
    /// The server's order share is still to come.
    AwaitingOrder,
    /// The server has the batch and its certificate.
    Done,
    /// The server sent a witness share that does not hold.
    Aborted,
}

/// What happened since the broker's last step.
#[derive(Clone, Copy, Debug, PartialEq, Eq, Structural)]
pub enum SubmitEvent {
    /// A session is open.
    Connected,
    /// No session could be opened.
    ConnectFailed,
    /// The batch was sent.
    BatchSent,
    /// The flag was sent.
    FlagSent,
    /// A witness share arrived.
    WitnessReceived,
    /// The witness share was checked against the server's key card.
    WitnessChecked { genuine: bool },
    /// The witness share was handed on.
    SharePublished,
    /// The certificate is aggregated.
    CertificateReady,
    /// The certificate was sent.
    CertificateSent,
    /// An order share arrived.
    OrderReceived,
    /// The connection failed.
    ConnectionLost,
}

/// What the broker does next.
#[derive(Clone, Copy, Debug, PartialEq, Eq)]
pub enum SubmitAction {
    /// Open a session to the server.
    Connect,
    /// Send the batch.
    SendBatch,
    /// Send the flag: whether the server is to verify the batch and
    /// witness it.
    SendFlag { verify: bool },
    /// Receive the witness share.
    ReceiveWitness,
    /// Check the witness share, which is to hold over the statement under
    /// the server's key card.
    CheckWitness { statement: WitnessStatement },
    /// Hand the witness share on, with the server's identity.
    PublishShare { server: Identity },
    /// Wait for the certificate.
    AwaitCertificate,
    /// Send the certificate.
    SendCertificate,
    /// Receive the order share.
    ReceiveOrder,
    /// End the session.
    End,
    /// Stop altogether: a correct server sends no share that does not hold.
    Abort,
}

/// The submission of one batch to one server, over as many attempts as it
/// takes.
#[derive(Clone, Copy, Debug, PartialEq, Eq)]
pub struct Submission {
    /// The server.
    pub server: Identity,
    /// The root of the batch.
    pub root: Root,
    /// Whether the server is a verifier whose witness share has not been
    /// handed on yet.
    pub owes_share: bool,
    /// How far the submission has come.
    pub state: SubmitState,
}

impl Submission {
    /// Whether the submission is over.
    pub open spec fn over(self) -> bool {
        self.state == SubmitState::Done || self.state == SubmitState::Aborted
    }

    /// Whether a session is open.
    pub open spec fn in_session(self) -> bool {
        !self.over() && self.state != SubmitState::Connecting
    }

    /// What the broker is to do in this state.
    pub open spec fn pending(self) -> SubmitAction {
        match self.state {
            SubmitState::Connecting => SubmitAction::Connect,
            SubmitState::SendingBatch => SubmitAction::SendBatch,
            SubmitState::SendingFlag => SubmitAction::SendFlag { verify: self.owes_share },
            SubmitState::AwaitingWitness => SubmitAction::ReceiveWitness,
            SubmitState::CheckingWitness => SubmitAction::CheckWitness {
                statement: WitnessStatement { root: self.root },
            },
            SubmitState::Publishing => SubmitAction::PublishShare { server: self.server },
            SubmitState::AwaitingCertificate => SubmitAction::AwaitCertificate,
            SubmitState::SendingCertificate => SubmitAction::SendCertificate,
            SubmitState::AwaitingOrder => SubmitAction::ReceiveOrder,
            SubmitState::Done => SubmitAction::End,
            SubmitState::Aborted => SubmitAction::Abort,
        }
    }

    /// The state that follows on `event` within an attempt. An event that
    /// the state does not wait for changes nothing.
    pub open spec fn advance(self, event: SubmitEvent) -> SubmitState {
        match (self.state, event) {
            (SubmitState::Connecting, SubmitEvent::Connected) => SubmitState::SendingBatch,
            (SubmitState::SendingBatch, SubmitEvent::BatchSent) => SubmitState::SendingFlag,
            (SubmitState::SendingFlag, SubmitEvent::FlagSent) => if self.owes_share {
                SubmitState::AwaitingWitness
            } else {
                SubmitState::AwaitingCertificate
            },
            (SubmitState::AwaitingWitness, SubmitEvent::WitnessReceived) => SubmitState::CheckingWitness,
            (SubmitState::CheckingWitness, SubmitEvent::WitnessChecked { genuine }) => if genuine {
                SubmitState::Publishing
            } else {
                SubmitState::Aborted
            },
            (SubmitState::Publishing, SubmitEvent::SharePublished) => SubmitState::AwaitingCertificate,
            (
                SubmitState::AwaitingCertificate,
                SubmitEvent::CertificateReady,
            ) => SubmitState::SendingCertificate,
            (SubmitState::SendingCertificate, SubmitEvent::CertificateSent) => SubmitState::AwaitingOrder,
            (SubmitState::AwaitingOrder, SubmitEvent::OrderReceived) => SubmitState::Done,
            _ => self.state,
        }
    }

    /// The submission after `event`. A submission that is over stays as it
    /// is. A connection that fails, while a session is open or before,
    /// starts the attempt anew. A share that was handed on is owed no
    /// longer, so later attempts ask for none.
    pub open spec fn next(self, event: SubmitEvent) -> Submission {
        if self.over() {
            self
        } else if event == SubmitEvent::ConnectionLost || event == SubmitEvent::ConnectFailed {
            Submission { state: SubmitState::Connecting, ..self }
        } else {
            Submission {
                state: self.advance(event),
                owes_share: self.owes_share && !(self.state == SubmitState::Publishing && event
                    == SubmitEvent::SharePublished),
                ..self
            }
        }
    }

    /// The submission after the events, one after the other.
    pub open spec fn run(self, events: Seq<SubmitEvent>) -> Submission
        decreases events.len(),
    {
        if events.len() == 0 {
            self
        } else {
            self.run(events.drop_last()).next(events.last())
        }
    }

    /// A submission that is yet to start.
    pub fn new(server: Identity, root: Root, verifier: bool) -> (submission: Submission)
        ensures
            submission == (Submission {
                server,
                root,
                owes_share: verifier,
                state: SubmitState::Connecting,
            }),
    {
        Submission { server, root, owes_share: verifier, state: SubmitState::Connecting }
    }

    /// What the broker is to do in this state.
    pub fn action(&self) -> (action: SubmitAction)
        ensures
            action == self.pending(),
    {
        match self.state {
            SubmitState::Connecting => SubmitAction::Connect,
            SubmitState::SendingBatch => SubmitAction::SendBatch,
            SubmitState::SendingFlag => SubmitAction::SendFlag { verify: self.owes_share },
            SubmitState::AwaitingWitness => SubmitAction::ReceiveWitness,
            SubmitState::CheckingWitness => SubmitAction::CheckWitness {
                statement: WitnessStatement::new(self.root),
            },
            SubmitState::Publishing => SubmitAction::PublishShare { server: self.server },
            SubmitState::AwaitingCertificate => SubmitAction::AwaitCertificate,
            SubmitState::SendingCertificate => SubmitAction::SendCertificate,
            SubmitState::AwaitingOrder => SubmitAction::ReceiveOrder,
            SubmitState::Done => SubmitAction::End,
            SubmitState::Aborted => SubmitAction::Abort,
        }
    }

    /// Takes one step: the submission after `event`, and what to do next.
    pub fn step(self, event: SubmitEvent) -> (after: (Submission, SubmitAction))
        ensures
            after.0 == self.next(event),
            after.1 == after.0.pending(),
    {
        let mut after = self;
        match self.state {
            SubmitState::Done => {},
            SubmitState::Aborted => {},
            _ => match event {
                SubmitEvent::ConnectionLost => {
                    after.state = SubmitState::Connecting;
                },
                SubmitEvent::ConnectFailed => {
                    after.state = SubmitState::Connecting;
                },
                _ => {
                    match (self.state, event) {
                        (SubmitState::Connecting, SubmitEvent::Connected) => {
                            after.state = SubmitState::SendingBatch;
                        },
                        (SubmitState::SendingBatch, SubmitEvent::BatchSent) => {
                            after.state = SubmitState::SendingFlag;
                        },
                        (SubmitState::SendingFlag, SubmitEvent::FlagSent) => {
                            if self.owes_share {
                                after.state = SubmitState::AwaitingWitness;
                            } else {
                                after.state = SubmitState::AwaitingCertificate;
                            }
                        },
                        (SubmitState::AwaitingWitness, SubmitEvent::WitnessReceived) => {
                            after.state = SubmitState::CheckingWitness;
                        },
                        (SubmitState::CheckingWitness, SubmitEvent::WitnessChecked { genuine }) => {
                            if genuine {
                                after.state = SubmitState::Publishing;
                            } else {
                                after.state = SubmitState::Aborted;
                            }
                        },
                        (SubmitState::Publishing, SubmitEvent::SharePublished) => {
                            after.state = SubmitState::AwaitingCertificate;
                            after.owes_share = false;
                        },
                        (SubmitState::AwaitingCertificate, SubmitEvent::CertificateReady) => {
                            after.state = SubmitState::SendingCertificate;
                        },
                        (SubmitState::SendingCertificate, SubmitEvent::CertificateSent) => {
                            after.state = SubmitState::AwaitingOrder;
                        },
                        (SubmitState::AwaitingOrder, SubmitEvent::OrderReceived) => {
                            after.state = SubmitState::Done;
                        },
                        _ => {},
                    }
                },
            },
        }
        (after, after.action())
    }
}

/// Whatever happens, a submission keeps its server and its root, and a
/// share that is owed no longer is never owed again: each verifier's share
/// is handed on at most once.
pub proof fn lemma_share_once(submission: Submission, events: Seq<SubmitEvent>)
    ensures
        submission.run(events).server == submission.server,
        submission.run(events).root == submission.root,
        submission.run(events).owes_share ==> submission.owes_share,
    decreases events.len(),
{
    if events.len() > 0 {
        lemma_share_once(submission, events.drop_last());
    }
}

/// A share is handed on only after it was checked and found to hold, and
/// only by a submission that still owes it.
pub proof fn lemma_publish_follows_check(submission: Submission, event: SubmitEvent)
    requires
        submission.next(event).state == SubmitState::Publishing,
        submission.state != SubmitState::Publishing,
    ensures
        submission.state == SubmitState::CheckingWitness,
        event == (SubmitEvent::WitnessChecked { genuine: true }),
{
}

/// A share that does not hold stops the submission for good: whatever
/// happens afterwards, the broker is told to stop, so the share is never
/// handed on and no certificate is sent to that server.
pub proof fn lemma_forged_share_aborts(submission: Submission, events: Seq<SubmitEvent>)
    requires
        submission.state == SubmitState::CheckingWitness,
    ensures
        submission.next(SubmitEvent::WitnessChecked { genuine: false }).run(events).state
            == SubmitState::Aborted,
        submission.next(SubmitEvent::WitnessChecked { genuine: false }).run(events).pending()
            == SubmitAction::Abort,
        submission.next(SubmitEvent::WitnessChecked { genuine: false }).run(events).owes_share
            == submission.owes_share,
    decreases events.len(),
{
    if events.len() > 0 {
        lemma_forged_share_aborts(submission, events.drop_last());
    }
}

/// A failed connection starts the attempt anew, whenever it happens
/// before the submission is over: the broker connects again.
pub proof fn lemma_failure_retries(submission: Submission)
    requires
        !submission.over(),
    ensures
        submission.next(SubmitEvent::ConnectionLost).state == SubmitState::Connecting,
        submission.next(SubmitEvent::ConnectFailed).state == SubmitState::Connecting,
        submission.next(SubmitEvent::ConnectionLost).pending() == SubmitAction::Connect,
        submission.next(SubmitEvent::ConnectionLost).owes_share == submission.owes_share,
{
}

} // verus!
