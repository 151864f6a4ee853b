use objstore::id_set::IdSet;
use objstore::object_index::StoredObject;
use objstore::storage::Storage;

fn obj(id: u64, bytes: Vec<u8>) -> StoredObject {
    StoredObject { id, bytes }
}

fn set_of(ids: &[u64]) -> IdSet {
    let mut s = IdSet::new();
    for &id in ids {
        s.insert(id);
    }
    s
}

#[test]
fn basic_lifecycle() {
    let (mut h, mut store) = Storage::create_root();
    h.store_block(&mut store, obj(1, vec![10, 20, 30]));
    assert_eq!(store.block_owners.len(), 1);
    assert!(store.block_owners.contains(1));
    assert_eq!(store.block_owners.count_of(1), 1);
    assert_eq!(store.blocks.len(), 1);
    let payload = store.blocks.get_object(1).expect("payload must be live");
    assert_eq!(payload.id, 1);
    assert_eq!(payload.bytes, vec![10, 20, 30]);

    h.drop_block_refs(&mut store, &set_of(&[1]));
    assert_eq!(store.block_owners.len(), 0);
    assert_eq!(store.blocks.len(), 0);
    assert!(store.blocks.get_object(1).is_none());
    assert_eq!(h.get_block_refs().len(), 0);
}

#[test]
fn shared_lifetime() {
    let (mut h1, mut store) = Storage::create_root();
    h1.store_block(&mut store, obj(1, vec![1]));
    let mut h2 = h1.clone_with_refs(&mut store);
    assert_eq!(store.block_owners.count_of(1), 2);
    assert!(h2.get_block_refs().contains(1));

    h1.release(&mut store);
    assert_eq!(store.block_owners.count_of(1), 1);
    assert!(store.blocks.contains(1));

    h2.release(&mut store);
    assert_eq!(store.block_owners.len(), 0);
    assert_eq!(store.blocks.len(), 0);
}

#[test]
fn split() {
    let (mut h1, mut store) = Storage::create_root();
    h1.store_block(&mut store, obj(1, vec![1]));
    h1.store_block(&mut store, obj(2, vec![2]));
    let h2 = h1.split_off(&set_of(&[2]), &IdSet::new(), &IdSet::new());
    assert_eq!(h1.get_block_refs().len(), 1);
    assert!(h1.get_block_refs().contains(1));
    assert!(!h1.get_block_refs().contains(2));
    assert_eq!(h2.get_block_refs().len(), 1);
    assert!(h2.get_block_refs().contains(2));
    assert_eq!(store.block_owners.count_of(1), 1);
    assert_eq!(store.block_owners.count_of(2), 1);
}

#[test]
fn claim_of_unknown_id() {
    let (mut h, mut store) = Storage::create_root();
    let claimed = h.claim_block_refs(&mut store, &set_of(&[1]));
    assert_eq!(claimed.len(), 0);
    assert_eq!(store.block_owners.len(), 0);
    assert_eq!(h.get_block_refs().len(), 0);
}

#[test]
fn claim_partial() {
    let (mut h1, mut store) = Storage::create_root();
    h1.store_block(&mut store, obj(1, vec![1]));
    let mut h2 = h1.clone_without_refs();
    let claimed = h2.claim_block_refs(&mut store, &set_of(&[1, 9]));
    assert_eq!(claimed.len(), 1);
    assert!(claimed.contains(1));
    assert!(!claimed.contains(9));
    assert_eq!(store.block_owners.count_of(1), 2);
    assert!(h2.get_block_refs().contains(1));
}

#[test]
fn extend_with_overlap() {
    let (mut h1, mut store) = Storage::create_root();
    h1.store_block(&mut store, obj(1, vec![1]));
    let mut h2 = h1.clone_with_refs(&mut store);
    h2.store_block(&mut store, obj(2, vec![2]));

    h1.extend(&mut h2);
    assert_eq!(h1.get_block_refs().len(), 2);
    assert!(h1.get_block_refs().contains(1));
    assert!(h1.get_block_refs().contains(2));
    // the overlapped id stays with the source until its release accounts for
    // the redundant count
    assert_eq!(h2.get_block_refs().len(), 1);
    assert!(h2.get_block_refs().contains(1));
    assert_eq!(store.block_owners.count_of(1), 2);
    assert_eq!(store.block_owners.count_of(2), 1);

    h2.release(&mut store);
    assert_eq!(store.block_owners.count_of(1), 1);
    assert_eq!(store.block_owners.count_of(2), 1);
    assert!(store.blocks.contains(1));
    assert!(store.blocks.contains(2));
}

#[test]
fn extend_disjoint_empties_source() {
    let (mut h1, mut store) = Storage::create_root();
    h1.store_block(&mut store, obj(1, vec![1]));
    let mut h2 = h1.clone_without_refs();
    h2.store_block(&mut store, obj(2, vec![2]));

    h1.extend(&mut h2);
    assert_eq!(h1.get_block_refs().len(), 2);
    assert_eq!(h2.get_block_refs().len(), 0);
    assert_eq!(store.block_owners.count_of(1), 1);
    assert_eq!(store.block_owners.count_of(2), 1);

    h2.release(&mut store);
    assert_eq!(store.block_owners.count_of(1), 1);
    assert_eq!(store.block_owners.count_of(2), 1);
}

#[test]
fn split_off_extend_round_trip() {
    let (mut h1, mut store) = Storage::create_root();
    h1.store_block(&mut store, obj(1, vec![1]));
    h1.store_block(&mut store, obj(2, vec![2]));
    let mut h2 = h1.split_off(&set_of(&[2]), &IdSet::new(), &IdSet::new());
    h1.extend(&mut h2);
    assert_eq!(h1.get_block_refs().len(), 2);
    assert!(h1.get_block_refs().contains(1));
    assert!(h1.get_block_refs().contains(2));
    assert_eq!(h2.get_block_refs().len(), 0);
    assert_eq!(store.block_owners.count_of(1), 1);
    assert_eq!(store.block_owners.count_of(2), 1);
    assert_eq!(store.blocks.len(), 2);
}

#[test]
fn store_idempotence() {
    let (mut h, mut store) = Storage::create_root();
    h.store_block(&mut store, obj(1, vec![5]));
    h.store_block(&mut store, obj(1, vec![5]));
    assert_eq!(store.block_owners.count_of(1), 1);
    assert_eq!(store.block_owners.len(), 1);
    assert_eq!(store.blocks.len(), 1);
    assert_eq!(store.blocks.get_object(1).unwrap().bytes, vec![5]);
}

#[test]
fn store_keeps_first_payload() {
    let (mut h, mut store) = Storage::create_root();
    h.store_block(&mut store, obj(1, vec![5]));
    h.store_block(&mut store, obj(1, vec![9]));
    assert_eq!(store.blocks.get_object(1).unwrap().bytes, vec![5]);
}

#[test]
fn drop_idempotence() {
    let (mut h1, mut store) = Storage::create_root();
    h1.store_block(&mut store, obj(1, vec![1]));
    let mut h2 = h1.clone_with_refs(&mut store);
    h1.drop_block_refs(&mut store, &set_of(&[1]));
    assert_eq!(store.block_owners.count_of(1), 1);
    // the second identical drop is a no-op: the id is no longer held locally
    h1.drop_block_refs(&mut store, &set_of(&[1]));
    assert_eq!(store.block_owners.count_of(1), 1);
    assert!(store.blocks.contains(1));
    h2.release(&mut store);
    assert_eq!(store.blocks.len(), 0);
}

#[test]
fn drop_of_unheld_id_is_skipped() {
    let (mut h, mut store) = Storage::create_root();
    h.store_block(&mut store, obj(1, vec![1]));
    h.drop_block_refs(&mut store, &set_of(&[2, 3]));
    assert_eq!(store.block_owners.count_of(1), 1);
    assert!(store.blocks.contains(1));
}

#[test]
fn clone_without_refs_is_owner_neutral() {
    let (mut h, mut store) = Storage::create_root();
    h.store_block(&mut store, obj(1, vec![1]));
    let c = h.clone_without_refs();
    assert_eq!(c.get_block_refs().len(), 0);
    assert_eq!(c.get_op_refs().len(), 0);
    assert_eq!(c.get_endorsement_refs().len(), 0);
    assert_eq!(store.block_owners.count_of(1), 1);
}

#[test]
fn clone_raises_every_held_count_by_one() {
    let (mut h, mut store) = Storage::create_root();
    h.store_block(&mut store, obj(1, vec![1]));
    h.store_block(&mut store, obj(2, vec![2]));
    h.store_operations(&mut store, vec![obj(40, vec![4])]);
    let c = h.clone_with_refs(&mut store);
    assert_eq!(store.block_owners.count_of(1), 2);
    assert_eq!(store.block_owners.count_of(2), 2);
    assert_eq!(store.operation_owners.count_of(40), 2);
    assert!(c.get_block_refs().contains(1));
    assert!(c.get_block_refs().contains(2));
    assert!(c.get_op_refs().contains(40));
}

#[test]
fn store_operations_batch() {
    let (mut h, mut store) = Storage::create_root();
    h.store_operations(
        &mut store,
        vec![obj(10, vec![1]), obj(11, vec![2]), obj(10, vec![3])],
    );
    assert_eq!(store.operation_owners.len(), 2);
    assert_eq!(store.operation_owners.count_of(10), 1);
    assert_eq!(store.operation_owners.count_of(11), 1);
    assert_eq!(store.operations.get_object(10).unwrap().bytes, vec![1]);
    assert_eq!(h.get_op_refs().len(), 2);
}

#[test]
fn endorsement_lifecycle() {
    let (mut h1, mut store) = Storage::create_root();
    h1.store_endorsements(&mut store, vec![obj(100, vec![7])]);
    assert_eq!(store.endorsement_owners.count_of(100), 1);
    let mut h2 = h1.clone_without_refs();
    let claimed = h2.claim_endorsement_refs(&mut store, &set_of(&[100, 101]));
    assert_eq!(claimed.len(), 1);
    assert!(claimed.contains(100));
    assert_eq!(store.endorsement_owners.count_of(100), 2);
    h1.drop_endorsement_refs(&mut store, &set_of(&[100]));
    assert_eq!(store.endorsement_owners.count_of(100), 1);
    h2.drop_endorsement_refs(&mut store, &set_of(&[100]));
    assert_eq!(store.endorsement_owners.len(), 0);
    assert_eq!(store.endorsements.len(), 0);
}

#[test]
fn claim_operation_refs_found_and_claimed() {
    let (mut h1, mut store) = Storage::create_root();
    h1.store_operations(&mut store, vec![obj(20, vec![1]), obj(21, vec![2])]);
    let mut h2 = h1.clone_without_refs();
    let claimed = h2.claim_operation_refs(&mut store, &set_of(&[21, 22]));
    assert_eq!(claimed.len(), 1);
    assert!(claimed.contains(21));
    assert_eq!(store.operation_owners.count_of(21), 2);
    assert_eq!(store.operation_owners.count_of(20), 1);
}

#[test]
fn read_views_see_stored_payloads() {
    let (mut h, mut store) = Storage::create_root();
    h.store_block(&mut store, obj(1, vec![1]));
    h.store_operations(&mut store, vec![obj(2, vec![2])]);
    h.store_endorsements(&mut store, vec![obj(3, vec![3])]);
    assert!(h.read_blocks(&store).contains(1));
    assert!(h.read_operations(&store).contains(2));
    assert!(h.read_endorsements(&store).contains(3));
    assert!(!h.read_blocks(&store).contains(2));
}

#[test]
fn churn_leaves_store_empty() {
    let (root, mut store) = Storage::create_root();
    for round in 0..50u64 {
        let mut h = root.clone_without_refs();
        h.store_block(&mut store, obj(round, vec![round as u8]));
        h.store_operations(&mut store, vec![obj(1000 + round, vec![1])]);
        h.release(&mut store);
    }
    assert_eq!(store.block_owners.len(), 0);
    assert_eq!(store.blocks.len(), 0);
    assert_eq!(store.operation_owners.len(), 0);
    assert_eq!(store.operations.len(), 0);
    assert_eq!(store.endorsement_owners.len(), 0);
    assert_eq!(store.endorsements.len(), 0);
}

#[test]
fn empty_inputs_are_no_ops() {
    let (mut h, mut store) = Storage::create_root();
    h.store_block(&mut store, obj(1, vec![1]));
    let claimed = h.claim_block_refs(&mut store, &IdSet::new());
    assert_eq!(claimed.len(), 0);
    h.drop_block_refs(&mut store, &IdSet::new());
    h.store_operations(&mut store, vec![]);
    let h2 = h.split_off(&IdSet::new(), &IdSet::new(), &IdSet::new());
    assert_eq!(store.block_owners.count_of(1), 1);
    assert_eq!(h2.get_block_refs().len(), 0);
    assert_eq!(h.get_block_refs().len(), 1);
}

#[test]
fn id_set_behaves_as_a_set() {
    let mut s = IdSet::new();
    assert!(s.insert(5));
    assert!(!s.insert(5));
    assert!(s.insert(7));
    assert_eq!(s.len(), 2);
    assert!(s.contains(5));
    assert!(s.contains(7));
    assert!(!s.contains(9));
    assert!(s.remove(5));
    assert!(!s.remove(5));
    assert_eq!(s.len(), 1);
    let t = s.clone();
    assert!(t.contains(7));
    assert_eq!(t.len(), 1);
}
