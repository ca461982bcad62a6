use chop_chop::crypto::{Identity, KeyCard};
use chop_chop::directory::{chunk_size, Directory, CHUNKS};
use chop_chop::passepartout::Passepartout;

fn card(tag: u8) -> KeyCard {
    KeyCard::new(Identity::from_bytes([tag; 32]), vec![tag, tag])
}

#[test]
fn a_new_directory_is_empty() {
    let directory = Directory::new();
    assert_eq!(directory.capacity(), 0);
    assert_eq!(directory.len(), 0);
    assert_eq!(directory.keycard(0), None);
}

#[test]
fn keycards_are_found_by_id() {
    let directory = Directory::from_keycards(vec![(2, card(2)), (0, card(0)), (5, card(5))]);
    assert_eq!(directory.capacity(), 6);
    assert_eq!(directory.len(), 3);
    assert_eq!(directory.keycard(0), Some(&card(0)));
    assert_eq!(directory.keycard(1), None);
    assert_eq!(directory.keycard(2), Some(&card(2)));
    assert_eq!(directory.keycard(5), Some(&card(5)));
    assert_eq!(directory.keycard(6), None);
    assert_eq!(directory.keycard(u64::MAX), None);
}

#[test]
fn a_later_keycard_replaces_an_earlier_one() {
    let directory = Directory::from_keycards(vec![(1, card(1)), (1, card(9))]);
    assert_eq!(directory.capacity(), 2);
    assert_eq!(directory.len(), 1);
    assert_eq!(directory.keycard(1), Some(&card(9)));
}

#[test]
fn insert_grows_the_directory() {
    let mut directory = Directory::new();
    directory.insert(3, card(3));
    assert_eq!(directory.capacity(), 4);
    assert_eq!(directory.len(), 1);
    directory.insert(1, card(1));
    assert_eq!(directory.capacity(), 4);
    assert_eq!(directory.len(), 2);
    assert_eq!(directory, Directory::from_slots(vec![None, Some(card(1)), None, Some(card(3))]));
}

#[test]
fn a_system_divides_servers_from_clients() {
    let passepartout = Passepartout::new((0..100).map(|tag| card(99 - tag)).collect());
    assert_eq!(passepartout.len(), 100);
    let (membership, directory) = passepartout.system(4);
    assert_eq!(membership.size(), 4);
    assert_eq!(
        membership.servers().iter().map(|card| card.identity.bytes[0]).collect::<Vec<u8>>(),
        vec![96, 97, 98, 99]
    );
    assert_eq!(directory.capacity(), 96);
    assert_eq!(directory.len(), 96);
    assert_eq!(directory.keycard(0), Some(&card(95)));
    assert_eq!(directory.keycard(95), Some(&card(0)));
}

#[test]
fn a_system_may_be_all_servers_or_all_clients() {
    let cards: Vec<KeyCard> = (0..3).map(card).collect();
    let (membership, directory) = Passepartout::new(cards.clone()).system(3);
    assert_eq!(membership.size(), 3);
    assert_eq!(directory.capacity(), 0);
    let (membership, directory) = Passepartout::new(cards).system(0);
    assert_eq!(membership.size(), 0);
    assert_eq!(directory.capacity(), 3);
    assert_eq!(directory.keycard(2), Some(&card(2)));
}

#[test]
fn keychains_are_found_by_identity() {
    let passepartout = Passepartout::new(vec![card(3), card(1), card(3)]);
    assert_eq!(passepartout.keychain(&Identity::from_bytes([3; 32])), Some(0));
    assert_eq!(passepartout.keychain(&Identity::from_bytes([1; 32])), Some(1));
    assert_eq!(passepartout.keychain(&Identity::from_bytes([2; 32])), None);
}

#[test]
fn the_known_ids_come_in_ascending_order() {
    let directory = Directory::from_keycards(vec![(7, card(7)), (2, card(2)), (4, card(4))]);
    assert_eq!(directory.ids(), vec![2, 4, 7]);
    assert_eq!(Directory::new().ids(), Vec::<u64>::new());
}

#[test]
fn entries_are_stored_in_sixty_four_chunks() {
    assert_eq!(CHUNKS, 64);
    assert_eq!(chunk_size(0), 0);
    assert_eq!(chunk_size(1), 1);
    assert_eq!(chunk_size(64), 1);
    assert_eq!(chunk_size(65), 2);
    assert_eq!(chunk_size(1000), 16);
    assert_eq!(chunk_size(usize::MAX), usize::MAX / 64 + 1);
    for entries in 1..500usize {
        assert_eq!(chunk_size(entries), (entries + CHUNKS - 1) / CHUNKS);
        let chunks = (entries + chunk_size(entries) - 1) / chunk_size(entries);
        assert!(chunks <= CHUNKS);
    }
}

#[test]
fn participants_of_one_identity_make_one_server() {
    let (membership, directory) = Passepartout::new(vec![card(1), card(1), card(2)]).system(2);
    assert_eq!(membership.size(), 1);
    assert_eq!(directory.capacity(), 1);
    assert_eq!(directory.keycard(0), Some(&card(2)));
}
