use chop_chop::batch::{Batch, BatchError, CompressedBatch, Payload, NIBBLE, NULL_ID};
use chop_chop::crypto::{Identity, KeyCard, MultiSignature, Signature};
use chop_chop::directory::Directory;
use chop_chop::passepartout::Passepartout;

fn payload(id: u64) -> Payload {
    Payload { id, message: [id as u8; 8] }
}

fn payloads(ids: &[u64]) -> Vec<Payload> {
    ids.iter().map(|id| payload(*id)).collect()
}

fn keycard(tag: u64) -> KeyCard {
    let mut bytes = [0u8; 32];
    bytes[24..32].copy_from_slice(&tag.to_be_bytes());
    KeyCard::new(Identity::from_bytes(bytes), vec![tag as u8])
}

fn dense_directory(clients: u64) -> Directory {
    Directory::from_slots((0..clients).map(|id| Some(keycard(id))).collect())
}

fn reduction() -> MultiSignature {
    MultiSignature { bytes: vec![1, 2, 3] }
}

fn signature(tag: u8) -> Signature {
    Signature { bytes: vec![tag; 4] }
}

fn system_of(participants: u64, servers: usize) -> Directory {
    let passepartout = Passepartout::new((0..participants).map(keycard).collect());
    let (membership, directory) = passepartout.system(servers);
    assert_eq!(membership.size(), servers);
    directory
}

#[test]
fn correct_size() {
    let directory = system_of(100, 1);
    assert_eq!(directory.capacity(), 99);
    let batch = Batch::random(&directory, 42);
    assert_eq!(batch.leaf_count(), (42 + NIBBLE - 1) / NIBBLE);
    assert_eq!(batch.leaves().len(), (42 + NIBBLE - 1) / NIBBLE);
}

#[test]
fn verify() {
    let directory = system_of(100, 1);
    let batch = Batch::random(&directory, 42).seal(reduction());
    batch.verify(&directory, &Vec::new(), true).unwrap();
}

#[test]
fn random_batch_is_ascending_and_in_range() {
    let directory = dense_directory(100);
    for _ in 0..20 {
        let batch = Batch::random(&directory, 42);
        let real = batch.payloads();
        assert_eq!(real.len(), 42);
        for pair in real.windows(2) {
            assert!(pair[0].id < pair[1].id);
        }
        assert!(real.iter().all(|payload| payload.id < 100));
        assert!(batch.reduction().is_none());
        assert!(batch.stragglers().is_empty());
    }
}

#[test]
fn random_batch_takes_all_clients_when_asked_for_more() {
    let directory = dense_directory(10);
    let batch = Batch::random(&directory, 42);
    let ids: Vec<u64> = batch.payloads().iter().map(|payload| payload.id).collect();
    assert_eq!(ids, (0..10).collect::<Vec<u64>>());
}

#[test]
fn random_batch_of_an_empty_directory_is_empty() {
    let batch = Batch::random(&Directory::new(), 42);
    assert_eq!(batch.payloads().len(), 0);
    assert_eq!(batch.leaf_count(), 0);
}

#[test]
fn padding_fills_the_last_leaf() {
    let batch = Batch::new(payloads(&(0..42).collect::<Vec<u64>>()), None, Vec::new());
    let leaves = batch.leaves();
    assert_eq!(leaves.len(), 3);
    assert_eq!(leaves[0][0], payload(0));
    assert_eq!(leaves[2][9], payload(41));
    for slot in 10..16 {
        assert_eq!(leaves[2][slot], Payload { id: NULL_ID, message: [0xff; 8] });
        assert_eq!(leaves[2][slot], Payload::padding());
        assert!(leaves[2][slot].is_padding());
    }
    assert_eq!(batch.payloads(), payloads(&(0..42).collect::<Vec<u64>>()));
}

#[test]
fn whole_leaves_get_no_padding() {
    let batch = Batch::new(payloads(&(0..32).collect::<Vec<u64>>()), None, Vec::new());
    assert_eq!(batch.leaf_count(), 2);
    assert_eq!(batch.payloads().len(), 32);
    let empty = Batch::new(Vec::new(), None, Vec::new());
    assert_eq!(empty.leaf_count(), 0);
}

#[test]
fn vectorize_pads_to_a_multiple_of_nibble() {
    for len in 0..40u64 {
        let slots = Batch::vectorize_payloads(payloads(&(0..len).collect::<Vec<u64>>()));
        assert_eq!(slots.len() % NIBBLE, 0);
        assert!(slots.len() >= len as usize);
        assert!(slots.len() < len as usize + NIBBLE);
        assert!(slots[len as usize..].iter().all(|slot| slot.is_padding()));
    }
}

#[test]
fn compress_keeps_every_slot() {
    let batch = Batch::new(payloads(&[3, 5, 8]), Some(reduction()), vec![(5, signature(9))]);
    let compressed = batch.compress();
    assert_eq!(compressed.ids.len(), 16);
    assert_eq!(&compressed.ids[..3], &[3, 5, 8]);
    assert!(compressed.ids[3..].iter().all(|id| *id == NULL_ID));
    assert_eq!(compressed.messages[1], [5u8; 8]);
    assert_eq!(compressed.messages[15], [0xffu8; 8]);
    assert_eq!(compressed.reduction, Some(reduction()));
    assert_eq!(compressed.stragglers, vec![(5, signature(9))]);
}

#[test]
fn compress_then_decompress_gives_the_batch_back() {
    for len in [0u64, 1, 15, 16, 17, 42, 64] {
        let make = || {
            Batch::new(
                payloads(&(0..len).map(|id| 2 * id + 1).collect::<Vec<u64>>()),
                Some(reduction()),
                vec![(1, signature(7))],
            )
        };
        let restored = make().compress().decompress().unwrap();
        assert_eq!(restored, make());
        assert_eq!(restored.leaves(), make().leaves());
        assert_eq!(restored.payloads(), make().payloads());
        assert_eq!(restored.reduction(), make().reduction());
        assert_eq!(restored.stragglers(), make().stragglers());
    }
}

#[test]
fn decompress_pads_what_the_wire_left_short() {
    let compressed = CompressedBatch::new(vec![4, 9], vec![[1; 8], [2; 8]], None, Vec::new());
    let batch = compressed.decompress().unwrap();
    assert_eq!(batch.leaf_count(), 1);
    assert_eq!(
        batch.payloads(),
        vec![Payload { id: 4, message: [1; 8] }, Payload { id: 9, message: [2; 8] }]
    );
}

#[test]
fn decompress_refuses_unequal_lengths() {
    let compressed = CompressedBatch::new(vec![4, 9], vec![[1; 8]], None, Vec::new());
    assert_eq!(compressed.decompress(), Err(BatchError::BatchInvalid));
    let compressed = CompressedBatch::new(vec![4], vec![[1; 8], [2; 8]], None, Vec::new());
    assert_eq!(compressed.decompress(), Err(BatchError::BatchInvalid));
}

#[test]
fn ids_that_could_not_be_unpacked_are_refused() {
    let batch = Batch::from_compressed_batch(None, Vec::new(), None, Vec::new());
    assert_eq!(batch, Err(BatchError::BatchInvalid));
    let batch = Batch::from_compressed_batch(Some(vec![1]), vec![[0; 8]], None, Vec::new());
    assert!(batch.is_ok());
}

#[test]
fn batch_with_stragglers_verifies() {
    let directory = dense_directory(100);
    let batch = Batch::new(
        payloads(&(0..42).collect::<Vec<u64>>()),
        Some(reduction()),
        vec![(7, signature(7)), (13, signature(13))],
    );
    let audit = batch.audit(&directory).unwrap();
    assert_eq!(audit.stragglers, payloads(&[7, 13]));
    assert_eq!(audit.reducers.len(), 40);
    assert!(audit.reducers.iter().all(|payload| payload.id != 7 && payload.id != 13));
    assert_eq!(audit.reducers[7], payload(8));
    assert_eq!(batch.verify(&directory, &vec![true, true], true), Ok(()));
}

#[test]
fn a_signature_that_does_not_hold_fails_the_batch() {
    let directory = dense_directory(100);
    let batch = Batch::new(
        payloads(&(0..42).collect::<Vec<u64>>()),
        Some(reduction()),
        vec![(7, signature(7)), (13, signature(13))],
    );
    assert_eq!(batch.verify(&directory, &vec![true, false], true), Err(BatchError::BatchInvalid));
    assert_eq!(batch.verify(&directory, &vec![false, true], true), Err(BatchError::BatchInvalid));
    assert_eq!(batch.verify(&directory, &vec![true, true], false), Err(BatchError::BatchInvalid));
    assert_eq!(batch.verify(&directory, &vec![true], true), Err(BatchError::BatchInvalid));
    assert_eq!(
        batch.verify(&directory, &vec![true, true, true], true),
        Err(BatchError::BatchInvalid)
    );
}

#[test]
fn ids_out_of_order_are_refused() {
    let directory = dense_directory(100);
    for ids in [vec![1u64, 1], vec![2, 1], vec![1, 2, 3, 3], vec![5, 6, 4], vec![0, 9, 9, 10]] {
        let batch = Batch::new(payloads(&ids), Some(reduction()), Vec::new());
        assert_eq!(batch.audit(&directory), Err(BatchError::BatchInvalid));
        assert_eq!(batch.verify(&directory, &Vec::new(), true), Err(BatchError::BatchInvalid));
    }
}

#[test]
fn ids_out_of_order_are_refused_on_the_wire_too() {
    let directory = dense_directory(100);
    let compressed =
        CompressedBatch::new(vec![5, 3], vec![[0; 8], [0; 8]], Some(reduction()), Vec::new());
    let batch = compressed.decompress().unwrap();
    assert_eq!(batch.verify(&directory, &Vec::new(), true), Err(BatchError::BatchInvalid));
}

#[test]
fn an_id_outside_the_directory_is_refused() {
    let directory = dense_directory(10);
    let batch = Batch::new(payloads(&[1, 10]), Some(reduction()), Vec::new());
    assert_eq!(batch.verify(&directory, &Vec::new(), true), Err(BatchError::BatchInvalid));
    let sparse = Directory::from_slots(vec![Some(keycard(0)), None, Some(keycard(2))]);
    let batch = Batch::new(payloads(&[0, 1]), Some(reduction()), Vec::new());
    assert_eq!(batch.verify(&sparse, &Vec::new(), true), Err(BatchError::BatchInvalid));
    let batch = Batch::new(payloads(&[0, 2]), Some(reduction()), Vec::new());
    assert_eq!(batch.verify(&sparse, &Vec::new(), true), Ok(()));
}

#[test]
fn a_straggler_that_is_no_payload_is_refused() {
    let directory = dense_directory(100);
    let batch = Batch::new(payloads(&[1, 2, 3]), Some(reduction()), vec![(4, signature(4))]);
    assert_eq!(batch.verify(&directory, &vec![true], true), Err(BatchError::BatchInvalid));
    let batch = Batch::new(payloads(&[1, 2, 3]), Some(reduction()), vec![(0, signature(0))]);
    assert_eq!(batch.verify(&directory, &vec![true], true), Err(BatchError::BatchInvalid));
}

#[test]
fn stragglers_out_of_order_are_refused() {
    let directory = dense_directory(100);
    let batch = Batch::new(
        payloads(&[1, 2, 3]),
        Some(reduction()),
        vec![(3, signature(3)), (1, signature(1))],
    );
    assert_eq!(batch.verify(&directory, &vec![true, true], true), Err(BatchError::BatchInvalid));
    let batch = Batch::new(
        payloads(&[1, 2, 3]),
        Some(reduction()),
        vec![(2, signature(2)), (2, signature(2))],
    );
    assert_eq!(batch.verify(&directory, &vec![true, true], true), Err(BatchError::BatchInvalid));
}

#[test]
fn reducers_between_stragglers_are_reducers() {
    let directory = dense_directory(100);
    let batch = Batch::new(
        payloads(&[1, 2, 3, 4, 5]),
        Some(reduction()),
        vec![(2, signature(2)), (4, signature(4))],
    );
    let audit = batch.audit(&directory).unwrap();
    assert_eq!(audit.stragglers, payloads(&[2, 4]));
    assert_eq!(audit.reducers, payloads(&[1, 3, 5]));
}

#[test]
fn reducers_need_a_reduction() {
    let directory = dense_directory(100);
    let batch = Batch::new(payloads(&[1, 2]), None, vec![(1, signature(1))]);
    assert_eq!(batch.verify(&directory, &vec![true], true), Err(BatchError::BatchInvalid));
    let batch =
        Batch::new(payloads(&[1, 2]), None, vec![(1, signature(1)), (2, signature(2))]);
    assert_eq!(batch.verify(&directory, &vec![true, true], false), Ok(()));
    let audit = batch.audit(&directory).unwrap();
    assert!(audit.reducers.is_empty());
}

#[test]
fn an_empty_batch_has_nothing_to_refuse() {
    let batch = Batch::new(Vec::new(), None, Vec::new());
    assert_eq!(batch.verify(&Directory::new(), &Vec::new(), false), Ok(()));
}

#[test]
fn seal_attaches_the_reduction() {
    let batch = Batch::new(payloads(&[1, 2]), None, Vec::new());
    assert_eq!(batch.reduction(), &None);
    let sealed = batch.seal(reduction());
    assert_eq!(sealed.reduction(), &Some(reduction()));
    assert_eq!(sealed.payloads(), payloads(&[1, 2]));
}
