use chop_chop::batch::{Batch, CompressedBatch, Payload};
use chop_chop::brokers::{
    gathered, LoadBroker, SubmitAction, SubmitEvent, SubmitState, Submission,
};
use chop_chop::crypto::{Identity, KeyCard, MultiSignature, Root};
use chop_chop::directory::Directory;
use chop_chop::membership::{Certificate, Membership};
use chop_chop::server::{Delivery, ServeEvent, ServeState, Server, WitnessStatement};

fn name(tag: u8) -> Identity {
    Identity::from_bytes([tag; 32])
}

fn servers(count: u8) -> Membership {
    Membership::from_servers((1..=count).map(|tag| KeyCard::new(name(tag), vec![tag])).collect())
}

fn clients(count: u8) -> Directory {
    Directory::from_slots(
        (0..count).map(|id| Some(KeyCard::new(name(100 + id), vec![id]))).collect(),
    )
}

fn the_root() -> Root {
    Root::from_bytes([42; 32])
}

fn the_batch() -> Batch {
    Batch::new(
        (0..42u64).map(|id| Payload { id, message: [id as u8; 8] }).collect(),
        Some(MultiSignature { bytes: vec![5; 3] }),
        Vec::new(),
    )
}

fn compressed() -> CompressedBatch {
    the_batch().compress()
}

fn broker(count: u8) -> LoadBroker {
    LoadBroker::new(servers(count), vec![(the_root(), compressed())])
}

fn drive(submission: Submission, events: &[SubmitEvent]) -> Submission {
    events.iter().fold(submission, |submission, event| submission.step(*event).0)
}

#[test]
fn a_broker_keeps_its_batches() {
    let broker = broker(4);
    assert_eq!(broker.len(), 1);
    assert_eq!(broker.membership().size(), 4);
    assert_eq!(broker.batch(0), Some(&(the_root(), compressed())));
    assert_eq!(broker.batch(1), None);
}

#[test]
fn a_plurality_of_servers_are_verifiers() {
    for count in [1u8, 4, 7, 10] {
        let broker = broker(count);
        for _ in 0..10 {
            let verifiers = broker.select_verifiers();
            assert_eq!(verifiers.len(), broker.membership().plurality());
            for pair in verifiers.windows(2) {
                assert!(pair[0] < pair[1]);
            }
            for verifier in verifiers.iter() {
                assert!(broker.membership().position(verifier).is_some());
            }
        }
    }
}

#[test]
fn a_broadcast_has_one_submission_for_each_server() {
    let broker = broker(4);
    for _ in 0..10 {
        let submissions = broker.broadcast(0);
        assert_eq!(submissions.len(), 4);
        for (place, submission) in submissions.iter().enumerate() {
            assert_eq!(submission.server, name(place as u8 + 1));
            assert_eq!(submission.root, the_root());
            assert_eq!(submission.state, SubmitState::Connecting);
            assert_eq!(submission.action(), SubmitAction::Connect);
        }
        assert_eq!(submissions.iter().filter(|submission| submission.owes_share).count(), 2);
    }
}

#[test]
fn the_verifiers_are_those_at_the_places_given() {
    let broker = broker(4);
    let submissions = broker.assign(0, &vec![3, 0]);
    assert_eq!(
        submissions.iter().map(|submission| submission.owes_share).collect::<Vec<bool>>(),
        vec![true, false, false, true]
    );
    let submissions = broker.assign(0, &vec![2, 9, 2]);
    assert_eq!(
        submissions.iter().map(|submission| submission.owes_share).collect::<Vec<bool>>(),
        vec![false, false, true, false]
    );
    let submissions = broker.assign(0, &Vec::new());
    assert!(submissions.iter().all(|submission| !submission.owes_share));
}

#[test]
fn a_verifier_is_asked_for_its_share() {
    let submission = Submission::new(name(1), the_root(), true);
    let (submission, action) = submission.step(SubmitEvent::Connected);
    assert_eq!(action, SubmitAction::SendBatch);
    let (submission, action) = submission.step(SubmitEvent::BatchSent);
    assert_eq!(action, SubmitAction::SendFlag { verify: true });
    let (submission, action) = submission.step(SubmitEvent::FlagSent);
    assert_eq!(action, SubmitAction::ReceiveWitness);
    let (submission, action) = submission.step(SubmitEvent::WitnessReceived);
    assert_eq!(
        action,
        SubmitAction::CheckWitness { statement: WitnessStatement { root: the_root() } }
    );
    let (submission, action) = submission.step(SubmitEvent::WitnessChecked { genuine: true });
    assert_eq!(action, SubmitAction::PublishShare { server: name(1) });
    assert!(submission.owes_share);
    let (submission, action) = submission.step(SubmitEvent::SharePublished);
    assert_eq!(action, SubmitAction::AwaitCertificate);
    assert!(!submission.owes_share);
    let (submission, action) = submission.step(SubmitEvent::CertificateReady);
    assert_eq!(action, SubmitAction::SendCertificate);
    let (submission, action) = submission.step(SubmitEvent::CertificateSent);
    assert_eq!(action, SubmitAction::ReceiveOrder);
    let (submission, action) = submission.step(SubmitEvent::OrderReceived);
    assert_eq!(action, SubmitAction::End);
    assert_eq!(submission.state, SubmitState::Done);
    assert_eq!(submission.step(SubmitEvent::ConnectionLost).0, submission);
}

#[test]
fn another_server_only_receives_the_batch() {
    let submission = Submission::new(name(2), the_root(), false);
    let submission = drive(submission, &[SubmitEvent::Connected, SubmitEvent::BatchSent]);
    assert_eq!(submission.action(), SubmitAction::SendFlag { verify: false });
    let (submission, action) = submission.step(SubmitEvent::FlagSent);
    assert_eq!(action, SubmitAction::AwaitCertificate);
    let submission = drive(
        submission,
        &[SubmitEvent::CertificateReady, SubmitEvent::CertificateSent, SubmitEvent::OrderReceived],
    );
    assert_eq!(submission.state, SubmitState::Done);
}

#[test]
fn a_dropped_session_is_tried_again() {
    let submission = Submission::new(name(1), the_root(), true);
    let submission =
        drive(submission, &[SubmitEvent::Connected, SubmitEvent::BatchSent, SubmitEvent::FlagSent]);
    let (submission, action) = submission.step(SubmitEvent::ConnectionLost);
    assert_eq!(action, SubmitAction::Connect);
    assert_eq!(submission.state, SubmitState::Connecting);
    assert!(submission.owes_share);
    let (submission, action) = submission.step(SubmitEvent::ConnectFailed);
    assert_eq!(action, SubmitAction::Connect);
    let submission = drive(
        submission,
        &[
            SubmitEvent::Connected,
            SubmitEvent::BatchSent,
            SubmitEvent::FlagSent,
            SubmitEvent::WitnessReceived,
            SubmitEvent::WitnessChecked { genuine: true },
            SubmitEvent::SharePublished,
            SubmitEvent::CertificateReady,
            SubmitEvent::CertificateSent,
            SubmitEvent::OrderReceived,
        ],
    );
    assert_eq!(submission.state, SubmitState::Done);
}

#[test]
fn a_share_is_handed_on_once_over_all_attempts() {
    let submission = Submission::new(name(1), the_root(), true);
    let submission = drive(
        submission,
        &[
            SubmitEvent::Connected,
            SubmitEvent::BatchSent,
            SubmitEvent::FlagSent,
            SubmitEvent::WitnessReceived,
            SubmitEvent::WitnessChecked { genuine: true },
            SubmitEvent::SharePublished,
            SubmitEvent::CertificateReady,
            SubmitEvent::ConnectionLost,
            SubmitEvent::Connected,
            SubmitEvent::BatchSent,
        ],
    );
    assert_eq!(submission.action(), SubmitAction::SendFlag { verify: false });
    let (submission, action) = submission.step(SubmitEvent::FlagSent);
    assert_eq!(action, SubmitAction::AwaitCertificate);
    assert!(!submission.owes_share);
}

#[test]
fn a_share_that_does_not_hold_stops_the_broker() {
    let submission = Submission::new(name(1), the_root(), true);
    let submission = drive(
        submission,
        &[
            SubmitEvent::Connected,
            SubmitEvent::BatchSent,
            SubmitEvent::FlagSent,
            SubmitEvent::WitnessReceived,
        ],
    );
    let (submission, action) = submission.step(SubmitEvent::WitnessChecked { genuine: false });
    assert_eq!(action, SubmitAction::Abort);
    assert_eq!(submission.state, SubmitState::Aborted);
    assert!(submission.owes_share);
    let (submission, action) = submission.step(SubmitEvent::ConnectionLost);
    assert_eq!(action, SubmitAction::Abort);
    assert_eq!(submission.step(SubmitEvent::Connected).1, SubmitAction::Abort);
}

#[test]
fn an_event_out_of_turn_leaves_a_submission_as_it_is() {
    let submission = Submission::new(name(1), the_root(), true);
    assert_eq!(submission.step(SubmitEvent::OrderReceived), (submission, SubmitAction::Connect));
    assert_eq!(submission.step(SubmitEvent::SharePublished), (submission, SubmitAction::Connect));
}

#[test]
fn a_batch_goes_through_four_servers() {
    let broker = broker(4);
    let mut hosts: Vec<Server> = (0..4).map(|_| Server::new(servers(4), clients(100))).collect();
    let mut submissions = broker.broadcast(0);
    let mut sessions: Vec<ServeState> = (0..4).map(|_| ServeState::start().0).collect();
    let mut shares: Vec<Identity> = Vec::new();
    for place in 0..4 {
        let verify = submissions[place].owes_share;
        submissions[place] = drive(
            submissions[place],
            &[SubmitEvent::Connected, SubmitEvent::BatchSent, SubmitEvent::FlagSent],
        );
        sessions[place] = sessions[place].step(ServeEvent::BatchReceived).0;
        sessions[place] = sessions[place].step(ServeEvent::FlagReceived { verify }).0;
        let (root, wire) = broker.batch(0).unwrap();
        let batch = wire.clone().decompress().unwrap();
        let witness = hosts[place].accept(batch, *root, verify, &Vec::new(), true).unwrap();
        assert_eq!(witness.is_some(), verify);
        sessions[place] = sessions[place].step(ServeEvent::Accepted { root: *root }).0;
        if verify {
            sessions[place] = sessions[place].step(ServeEvent::WitnessSent).0;
            submissions[place] = drive(
                submissions[place],
                &[
                    SubmitEvent::WitnessReceived,
                    SubmitEvent::WitnessChecked { genuine: true },
                    SubmitEvent::SharePublished,
                ],
            );
            shares.push(submissions[place].server);
        }
        assert_eq!(submissions[place].state, SubmitState::AwaitingCertificate);
        assert_eq!(sessions[place], ServeState::AwaitingCertificate { root: *root });
    }
    assert_eq!(shares.len(), 2);
    let signature = MultiSignature { bytes: vec![9; 3] };
    for place in 0..4 {
        let certificate =
            Certificate::aggregate(broker.membership(), shares.clone(), signature.clone());
        assert_eq!(certificate.power(), 2);
        submissions[place] = drive(
            submissions[place],
            &[SubmitEvent::CertificateReady, SubmitEvent::CertificateSent],
        );
        sessions[place] = sessions[place].step(ServeEvent::CertificateReceived).0;
        assert!(hosts[place].endorse(the_root(), &certificate, true).is_ok());
        sessions[place] = sessions[place].step(ServeEvent::Endorsed).0;
        sessions[place] = sessions[place].step(ServeEvent::Ordered).0;
        sessions[place] = sessions[place].step(ServeEvent::OrderSent).0;
        submissions[place] = submissions[place].step(SubmitEvent::OrderReceived).0;
        assert_eq!(sessions[place], ServeState::Done);
        assert_eq!(submissions[place].state, SubmitState::Done);
        assert_eq!(gathered(&submissions, place + 1), true);
        assert_eq!(gathered(&submissions, place + 2), false);
        assert_eq!(broker.complete(&submissions), place + 1 >= 3);
        assert_eq!(
            hosts[place].process(Some((the_root(), certificate)), true),
            Delivery::Released(the_batch())
        );
    }
}

#[test]
fn a_broadcast_is_complete_once_a_quorum_answered() {
    let broker = broker(4);
    let mut submissions = broker.assign(0, &vec![0, 1]);
    assert!(gathered(&submissions, 0));
    assert!(!gathered(&submissions, 1));
    assert!(!broker.complete(&submissions));
    let finish = [
        SubmitEvent::Connected,
        SubmitEvent::BatchSent,
        SubmitEvent::FlagSent,
        SubmitEvent::CertificateReady,
        SubmitEvent::CertificateSent,
        SubmitEvent::OrderReceived,
    ];
    submissions[2] = drive(submissions[2], &finish);
    submissions[3] = drive(submissions[3], &finish);
    assert!(gathered(&submissions, 2));
    assert!(!gathered(&submissions, 3));
    assert!(!broker.complete(&submissions));
    submissions[0] = drive(
        submissions[0],
        &[
            SubmitEvent::Connected,
            SubmitEvent::BatchSent,
            SubmitEvent::FlagSent,
            SubmitEvent::WitnessReceived,
            SubmitEvent::WitnessChecked { genuine: true },
            SubmitEvent::SharePublished,
            SubmitEvent::CertificateReady,
            SubmitEvent::CertificateSent,
        ],
    );
    assert!(!broker.complete(&submissions));
    submissions[0] = submissions[0].step(SubmitEvent::OrderReceived).0;
    assert!(gathered(&submissions, 3));
    assert!(!gathered(&submissions, 4));
    assert!(broker.complete(&submissions));
    assert!(gathered(&Vec::new(), 0));
    assert!(!gathered(&Vec::new(), 1));
}
