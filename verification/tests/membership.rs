use bit_vec::BitVec;
use chop_chop::crypto::{Identity, KeyCard, MultiSignature};
use chop_chop::membership::{Certificate, CertificateError, Membership};

fn server_identity(tag: u8) -> Identity {
    Identity::from_bytes([tag; 32])
}

fn server_card(tag: u8) -> KeyCard {
    KeyCard::new(server_identity(tag), vec![tag])
}

fn members(tags: &[u8]) -> Membership {
    Membership::from_servers(tags.iter().map(|tag| server_card(*tag)).collect())
}

fn aggregate_signature() -> MultiSignature {
    MultiSignature { bytes: vec![0xaa; 6] }
}

fn set_bits(certificate: &Certificate) -> Vec<bool> {
    certificate.signers().iter().collect()
}

#[test]
fn servers_stand_in_canonical_order() {
    let membership = members(&[9, 2, 7, 4]);
    assert_eq!(membership.size(), 4);
    assert_eq!(
        membership.servers(),
        &vec![server_card(2), server_card(4), server_card(7), server_card(9)]
    );
    assert_eq!(membership.position(&server_identity(7)), Some(2));
    assert_eq!(membership.position(&server_identity(2)), Some(0));
    assert_eq!(membership.position(&server_identity(3)), None);
}

#[test]
fn the_last_keycard_of_an_identity_stands_for_it() {
    let first = KeyCard::new(server_identity(5), vec![1]);
    let second = KeyCard::new(server_identity(5), vec![2]);
    let membership = Membership::from_servers(vec![first, server_card(3), second.clone()]);
    assert_eq!(membership.size(), 2);
    assert_eq!(membership.servers(), &vec![server_card(3), second]);
}

#[test]
fn plurality_is_a_third_of_the_others_and_one() {
    let expected = [(1usize, 1usize), (2, 1), (3, 1), (4, 2), (5, 2), (6, 2), (7, 3), (10, 4), (100, 34)];
    for (n, plurality) in expected {
        let membership = members(&(0..n as u8).collect::<Vec<u8>>());
        assert_eq!(membership.size(), n);
        assert_eq!(membership.plurality(), plurality);
        assert_eq!(membership.plurality(), (n - 1) / 3 + 1);
    }
}

#[test]
fn quorum_leaves_out_fewer_than_a_plurality() {
    let expected = [(1usize, 1usize), (2, 2), (3, 3), (4, 3), (5, 4), (6, 5), (7, 5), (10, 7), (100, 67)];
    for (n, quorum) in expected {
        let membership = members(&(0..n as u8).collect::<Vec<u8>>());
        assert_eq!(membership.quorum(), quorum);
        assert_eq!(membership.quorum(), n - membership.plurality() + 1);
    }
}

#[test]
fn an_empty_membership_has_its_thresholds_too() {
    let membership = Membership::from_servers(Vec::new());
    assert_eq!(membership.size(), 0);
    assert_eq!(membership.plurality(), 0);
    assert_eq!(membership.quorum(), 1);
}

#[test]
fn aggregate_sets_the_bits_of_the_signers() {
    let membership = members(&[1, 2, 3, 4]);
    let certificate = Certificate::aggregate(
        &membership,
        vec![server_identity(4), server_identity(2)],
        aggregate_signature(),
    );
    assert_eq!(set_bits(&certificate), vec![false, true, false, true]);
    assert_eq!(certificate.power(), 2);
    assert_eq!(certificate.selected(&membership), Some(vec![1, 3]));
    assert_eq!(certificate.signature(), &aggregate_signature());
}

#[test]
fn aggregate_of_none_and_of_all() {
    let membership = members(&[1, 2, 3, 4]);
    let none = Certificate::aggregate(&membership, Vec::new(), aggregate_signature());
    assert_eq!(set_bits(&none), vec![false; 4]);
    assert_eq!(none.power(), 0);
    assert_eq!(none.selected(&membership), Some(Vec::new()));
    let all = Certificate::aggregate(
        &membership,
        vec![server_identity(3), server_identity(1), server_identity(4), server_identity(2)],
        aggregate_signature(),
    );
    assert_eq!(set_bits(&all), vec![true; 4]);
    assert_eq!(all.power(), 4);
    assert_eq!(all.selected(&membership), Some(vec![0, 1, 2, 3]));
}

#[test]
fn aggregate_for_a_threshold() {
    let membership = members(&[1, 2, 3, 4]);
    let plurality = Certificate::aggregate_plurality(
        &membership,
        vec![server_identity(1), server_identity(3)],
        aggregate_signature(),
    );
    assert_eq!(set_bits(&plurality), vec![true, false, true, false]);
    assert!(plurality.power() >= membership.plurality());
    let quorum = Certificate::aggregate_quorum(
        &membership,
        vec![server_identity(1), server_identity(3), server_identity(4)],
        aggregate_signature(),
    );
    assert_eq!(set_bits(&quorum), vec![true, false, true, true]);
    assert!(quorum.power() >= membership.quorum());
}

#[test]
fn a_certificate_passes_with_enough_signers_and_a_signature_that_holds() {
    let membership = members(&[1, 2, 3, 4]);
    let two = Certificate::aggregate(
        &membership,
        vec![server_identity(1), server_identity(2)],
        aggregate_signature(),
    );
    assert_eq!(two.verify_plurality(&membership, true), Ok(()));
    assert_eq!(two.verify_plurality(&membership, false), Err(CertificateError::CertificateInvalid));
    assert_eq!(two.verify_quorum(&membership, true), Err(CertificateError::NotEnoughSigners));
    assert_eq!(two.verify_quorum(&membership, false), Err(CertificateError::NotEnoughSigners));
    let one = Certificate::aggregate(&membership, vec![server_identity(3)], aggregate_signature());
    assert_eq!(one.verify_plurality(&membership, true), Err(CertificateError::NotEnoughSigners));
    assert_eq!(one.verify_threshold(&membership, 1, true), Ok(()));
    assert_eq!(one.verify_threshold(&membership, 0, true), Ok(()));
    assert_eq!(one.verify_raw(&membership, true), Ok(()));
    assert_eq!(one.verify_raw(&membership, false), Err(CertificateError::CertificateInvalid));
    let three = Certificate::aggregate(
        &membership,
        vec![server_identity(1), server_identity(2), server_identity(4)],
        aggregate_signature(),
    );
    assert_eq!(three.verify_quorum(&membership, true), Ok(()));
    assert_eq!(three.verify_quorum(&membership, false), Err(CertificateError::CertificateInvalid));
}

#[test]
fn a_certificate_of_another_membership_is_invalid() {
    let membership = members(&[1, 2, 3, 4]);
    let mut signers = BitVec::from_elem(5, false);
    signers.set(0, true);
    signers.set(4, true);
    let certificate = Certificate::from_parts(signers, aggregate_signature());
    assert_eq!(certificate.power(), 2);
    assert_eq!(certificate.selected(&membership), None);
    assert_eq!(
        certificate.verify_plurality(&membership, true),
        Err(CertificateError::CertificateInvalid)
    );
    let short = Certificate::from_parts(BitVec::from_elem(3, true), aggregate_signature());
    assert_eq!(short.power(), 3);
    assert_eq!(short.verify_plurality(&membership, true), Err(CertificateError::CertificateInvalid));
}

#[test]
fn a_certificate_from_the_wire_names_its_signers() {
    let membership = members(&[1, 2, 3, 4]);
    let mut signers = BitVec::from_elem(4, false);
    signers.set(2, true);
    signers.set(3, true);
    let certificate = Certificate::from_parts(signers.clone(), aggregate_signature());
    assert_eq!(certificate.signers(), &signers);
    assert_eq!(certificate.power(), 2);
    assert_eq!(certificate.selected(&membership), Some(vec![2, 3]));
    assert_eq!(certificate.verify_plurality(&membership, true), Ok(()));
}

#[test]
fn distinct_identities_give_as_many_servers() {
    for count in [0u8, 1, 4, 33] {
        let membership = members(&(0..count).rev().collect::<Vec<u8>>());
        assert_eq!(membership.size(), count as usize);
    }
    assert_eq!(members(&[4, 4, 2, 4, 2]).size(), 2);
}

#[test]
fn a_bit_without_a_block_counts_as_unset() {
    let membership = members(&[1, 2, 3, 4]);
    let mut bytes = Vec::new();
    bytes.extend_from_slice(&0u64.to_le_bytes());
    bytes.extend_from_slice(&4u64.to_le_bytes());
    let signers: BitVec = bincode::deserialize(&bytes).unwrap();
    assert_eq!(signers.len(), 4);
    assert_eq!(signers.get(0), None);
    let certificate = Certificate::from_parts(signers, aggregate_signature());
    assert_eq!(certificate.power(), 0);
    assert_eq!(certificate.selected(&membership), Some(Vec::new()));
    assert_eq!(
        certificate.verify_plurality(&membership, true),
        Err(CertificateError::NotEnoughSigners)
    );
    assert_eq!(certificate.verify_threshold(&membership, 0, true), Ok(()));
}
