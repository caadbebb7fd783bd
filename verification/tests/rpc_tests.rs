use base64::Engine as _;
use lite_rpc::Commitment;
use lite_rpc::block::ProducedBlock;
use lite_rpc::block::TransactionInfo;
use lite_rpc::encoding::BinaryEncoding;
use lite_rpc::encoding::SendTxError;
use lite_rpc::encoding::extract_signature;
use lite_rpc::rpc::DataCache;
use lite_rpc::rpc::max_context_slot;
use lite_rpc::rpc::LiteBridge;
use lite_rpc::tracker::TxStatusLevel;

fn produced(slot: u64, height: u64, hash: &str, commitment: Commitment, sigs: &[&str])
    -> ProducedBlock {
    ProducedBlock {
        slot,
        blockhash: hash.to_string(),
        parent_slot: slot.saturating_sub(1),
        block_height: height,
        block_time: 1700000000 + slot,
        previous_blockhash: "prev".to_string(),
        leader_id: None,
        rewards: None,
        transactions: sigs
            .iter()
            .map(|s| TransactionInfo { signature: s.to_string() })
            .collect(),
        commitment,
    }
}

fn raw_tx_with_signature(sig: &[u8; 64]) -> Vec<u8> {
    // one signature, then a minimal message body
    let mut raw = vec![1u8];
    raw.extend_from_slice(sig);
    raw.extend_from_slice(&[0u8, 0, 0]);
    raw
}

#[test]
fn latest_blockhash_extends_validity_window() {
    let mut bridge = LiteBridge::new(DataCache::new());
    bridge.ingest_block(&produced(10, 100, "hashX", Commitment::Confirmed, &[]), 1);
    let r = bridge.get_latest_blockhash(Commitment::Confirmed).expect("cached");
    assert_eq!(r.slot, 10);
    assert_eq!(r.blockhash, "hashX");
    assert_eq!(r.last_valid_block_height, 250); // height + 150
    assert!(bridge.get_latest_blockhash(Commitment::Finalized).is_none());
}

#[test]
fn slot_and_height_queries() {
    let mut bridge = LiteBridge::new(DataCache::new());
    bridge.ingest_block(&produced(7, 70, "a", Commitment::Processed, &[]), 1);
    bridge.ingest_block(&produced(9, 90, "b", Commitment::Processed, &[]), 2);
    assert_eq!(bridge.get_slot(Commitment::Processed), Some(9));
    assert_eq!(bridge.get_block_height(Commitment::Processed), Some(90));
    assert_eq!(bridge.get_block_time(7), Ok(1700000007));
    assert!(bridge.get_block_time(8).is_err());
}

#[test]
fn submitted_transaction_reaches_finalized_status() {
    let mut bridge = LiteBridge::new(DataCache::new());
    let sig_bytes = [7u8; 64];
    let raw = raw_tx_with_signature(&sig_bytes);
    let encoded = bs58::encode(&raw).into_string();
    let prepared = bridge
        .submit_transaction(&encoded, BinaryEncoding::Base58, 0, 10_000, 1)
        .expect("decodes");
    assert_eq!(prepared.raw_tx, raw);
    let sig_text = bs58::encode(&sig_bytes[..]).into_string();
    assert_eq!(prepared.signature_base58, sig_text);

    // the block containing the signature moves the record up the ladder
    bridge.ingest_block(&produced(500, 400, "h1", Commitment::Processed, &[&sig_text]), 2);
    let statuses = bridge.get_signature_statuses(&vec![sig_text.clone()]);
    assert_eq!(statuses, vec![Some(TxStatusLevel::Landed)]);
    bridge.ingest_block(&produced(500, 400, "h1", Commitment::Confirmed, &[&sig_text]), 3);
    bridge.ingest_block(&produced(500, 400, "h1", Commitment::Finalized, &[&sig_text]), 4);
    let statuses = bridge.get_signature_statuses(&vec![sig_text.clone(), "unknown".to_string()]);
    assert_eq!(statuses, vec![Some(TxStatusLevel::Finalized), None]);
}

#[test]
fn submitted_transaction_expires_without_landing() {
    let mut bridge = LiteBridge::new(DataCache::new());
    let sig_bytes = [9u8; 64];
    let raw = raw_tx_with_signature(&sig_bytes);
    let encoded = bs58::encode(&raw).into_string();
    let prepared = bridge
        .submit_transaction(&encoded, BinaryEncoding::Base58, 0, 450, 1)
        .expect("decodes");
    let sig_text = prepared.signature_base58.clone();
    // finalized blocks pass the validity window without the signature
    bridge.ingest_block(&produced(500, 450, "h1", Commitment::Finalized, &[]), 2);
    assert_eq!(bridge.get_signature_statuses(&vec![sig_text.clone()]), vec![None]);
    bridge.ingest_block(&produced(501, 451, "h2", Commitment::Finalized, &[]), 3);
    assert_eq!(bridge.get_signature_statuses(&vec![sig_text]), vec![None]);
}

#[test]
fn base64_submission_decodes() {
    let mut bridge = LiteBridge::new(DataCache::new());
    let sig_bytes = [3u8; 64];
    let raw = raw_tx_with_signature(&sig_bytes);
    let encoded = base64::engine::general_purpose::STANDARD.encode(&raw);
    let prepared = bridge
        .submit_transaction(&encoded, BinaryEncoding::Base64, 2, 10_000, 1)
        .expect("decodes");
    assert_eq!(prepared.raw_tx, raw);
    assert_eq!(prepared.max_retries, 2);
}

#[test]
fn oversized_submission_is_rejected() {
    let mut bridge = LiteBridge::new(DataCache::new());
    let big = "1".repeat(1684);
    assert_eq!(
        bridge.submit_transaction(&big, BinaryEncoding::Base58, 0, 0, 0),
        Err(SendTxError::TooLarge)
    );
    // base64 has its own, lower limit
    let big64 = "A".repeat(1645);
    assert_eq!(
        bridge.submit_transaction(&big64, BinaryEncoding::Base64, 0, 0, 0),
        Err(SendTxError::TooLarge)
    );
}

#[test]
fn batch_context_slot_is_the_highest() {
    assert_eq!(max_context_slot(&vec![]), 0);
    assert_eq!(max_context_slot(&vec![3, 9, 7]), 9);
    assert_eq!(max_context_slot(&vec![0, 0]), 0);
}

#[test]
fn signature_framing_cases() {
    // single-byte count
    let mut raw = vec![2u8];
    raw.extend_from_slice(&[5u8; 64]);
    raw.extend_from_slice(&[6u8; 64]);
    assert_eq!(extract_signature(&raw), Some(vec![5u8; 64]));
    // two-byte count: 0x80 0x01 encodes 128
    let mut raw = vec![0x80u8, 0x01];
    for k in 0..128u64 {
        raw.extend_from_slice(&[k as u8; 64]);
    }
    assert_eq!(extract_signature(&raw), Some(vec![0u8; 64]));
    // zero signatures
    assert_eq!(extract_signature(&vec![0u8]), None);
    // truncated count
    assert_eq!(extract_signature(&vec![0x80u8]), None);
    // count present but bytes missing
    assert_eq!(extract_signature(&vec![1u8, 2, 3]), None);
}

#[test]
fn undecodable_submission_is_rejected() {
    let mut bridge = LiteBridge::new(DataCache::new());
    // '0' is not in the base58 alphabet
    assert_eq!(
        bridge.submit_transaction("0OIl", BinaryEncoding::Base58, 0, 0, 0),
        Err(SendTxError::Decode)
    );
    // valid base58 but no well-formed signature framing behind it
    let short = bs58::encode(&[1u8, 2, 3]).into_string();
    assert_eq!(
        bridge.submit_transaction(&short, BinaryEncoding::Base58, 0, 0, 0),
        Err(SendTxError::Decode)
    );
}
