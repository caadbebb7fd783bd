use lite_rpc::Commitment;
use lite_rpc::block::BlockInformation;
use lite_rpc::block_store::BlockStore;

fn store_info(slot: u64, height: u64, hash: &str, commitment: Commitment) -> BlockInformation {
    BlockInformation {
        slot,
        block_height: height,
        blockhash: hash.to_string(),
        block_time: 1700000000 + slot,
        previous_blockhash: String::new(),
        commitment,
    }
}

#[test]
fn round_trip_by_slot_and_by_hash() {
    let mut store = BlockStore::new();
    store.add(store_info(10, 5, "hashA", Commitment::Processed));
    let by_slot = store.get_block_info_by_slot(10).expect("slot present");
    assert_eq!(by_slot.blockhash, "hashA");
    assert_eq!(by_slot.block_height, 5);
    let by_hash = store.get_block_info_by_blockhash(&"hashA".to_string()).expect("hash present");
    assert_eq!(by_hash.slot, 10);
    assert!(store.get_block_info_by_slot(11).is_none());
    assert!(store.get_block_info_by_blockhash(&"other".to_string()).is_none());
}

#[test]
fn same_slot_keeps_higher_commitment() {
    let mut store = BlockStore::new();
    store.add(store_info(10, 5, "hashA", Commitment::Confirmed));
    store.add(store_info(10, 5, "hashA", Commitment::Processed));
    let b = store.get_block_info_by_slot(10).unwrap();
    assert_eq!(b.commitment, Commitment::Confirmed);
    store.add(store_info(10, 5, "hashA", Commitment::Finalized));
    let b = store.get_block_info_by_slot(10).unwrap();
    assert_eq!(b.commitment, Commitment::Finalized);
}

#[test]
fn latest_block_per_commitment() {
    let mut store = BlockStore::new();
    store.add(store_info(5, 5, "p", Commitment::Processed));
    store.add(store_info(3, 3, "c", Commitment::Confirmed));
    store.add(store_info(2, 2, "f", Commitment::Finalized));
    assert_eq!(store.get_latest_block(Commitment::Processed).unwrap().slot, 5);
    assert_eq!(store.get_latest_block(Commitment::Confirmed).unwrap().slot, 3);
    assert_eq!(store.get_latest_block(Commitment::Finalized).unwrap().slot, 2);
}

#[test]
fn latest_block_empty_store() {
    let store = BlockStore::new();
    assert!(store.get_latest_block(Commitment::Processed).is_none());
    let (valid, slot) = store.is_blockhash_valid(&"h".to_string(), Commitment::Processed);
    assert!(!valid);
    assert_eq!(slot, 0);
}

#[test]
fn blockhash_expiry_window() {
    // Insert height 500 with hash H, then heights 501..=650: H stays valid.
    let mut store = BlockStore::new();
    store.add(store_info(1000, 500, "H", Commitment::Finalized));
    for h in 501..=650u64 {
        let slot = 1000 + (h - 500);
        store.add(store_info(slot, h, &format!("hash{}", h), Commitment::Finalized));
    }
    let (valid, slot) = store.is_blockhash_valid(&"H".to_string(), Commitment::Finalized);
    assert!(valid);
    assert_eq!(slot, 1150);
    // One more height and H has expired.
    store.add(store_info(1151, 651, "hash651", Commitment::Finalized));
    let (valid, slot) = store.is_blockhash_valid(&"H".to_string(), Commitment::Finalized);
    assert!(!valid);
    assert_eq!(slot, 1151);
}

#[test]
fn hash_validity_needs_commitment() {
    let mut store = BlockStore::new();
    store.add(store_info(1, 1, "weak", Commitment::Processed));
    store.add(store_info(2, 2, "strong", Commitment::Finalized));
    // "weak" is only processed: not acceptable at finalized commitment.
    let (valid, _) = store.is_blockhash_valid(&"weak".to_string(), Commitment::Finalized);
    assert!(!valid);
    let (valid, _) = store.is_blockhash_valid(&"weak".to_string(), Commitment::Processed);
    assert!(valid);
}

#[test]
fn eviction_behind_finalized_tip() {
    let mut store = BlockStore::new();
    store.add(store_info(1000, 900, "tip", Commitment::Finalized));
    // 487 < 1000 - 512: evicted during its own insertion.
    store.add(store_info(487, 400, "old", Commitment::Processed));
    assert!(store.get_block_info_by_slot(487).is_none());
    // 488 >= 1000 - 512: retained.
    store.add(store_info(488, 401, "kept", Commitment::Processed));
    assert!(store.get_block_info_by_slot(488).is_some());
}
