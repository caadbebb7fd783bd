use lite_rpc::Commitment;
use lite_rpc::tracker::TxStatusLevel;
use lite_rpc::tracker::TxTracker;

fn sigs(list: &[&str]) -> Vec<String> {
    list.iter().map(|s| s.to_string()).collect()
}

#[test]
fn confirmation_path_through_commitments() {
    // A submitted signature lands at processed, confirms, finalizes.
    let mut txs = TxTracker::new();
    assert!(txs.register("sigA".to_string(), 1000, 0, 10));
    assert!(txs.get_status(&"sigA".to_string()).is_none());
    txs.mark_forwarded(&"sigA".to_string(), 11);
    assert!(txs.get_status(&"sigA".to_string()).is_none());

    let in_block = sigs(&["sigA", "other"]);
    txs.process_block(500, Commitment::Processed, &in_block, 20);
    assert_eq!(txs.get_status(&"sigA".to_string()), Some(TxStatusLevel::Landed));
    txs.process_block(500, Commitment::Confirmed, &in_block, 30);
    assert_eq!(txs.get_status(&"sigA".to_string()), Some(TxStatusLevel::Confirmed));
    txs.process_block(500, Commitment::Finalized, &in_block, 40);
    assert_eq!(txs.get_status(&"sigA".to_string()), Some(TxStatusLevel::Finalized));
}

#[test]
fn finalized_is_absorbing() {
    let mut txs = TxTracker::new();
    txs.register("sigA".to_string(), 1000, 0, 10);
    let in_block = sigs(&["sigA"]);
    txs.process_block(500, Commitment::Finalized, &in_block, 20);
    assert_eq!(txs.get_status(&"sigA".to_string()), Some(TxStatusLevel::Finalized));
    // nothing moves it again: later observations and expiry ticks change nothing
    txs.process_block(600, Commitment::Processed, &in_block, 30);
    txs.process_finalized_height(5000, 40);
    txs.mark_forwarded(&"sigA".to_string(), 50);
    assert_eq!(txs.get_status(&"sigA".to_string()), Some(TxStatusLevel::Finalized));
}

#[test]
fn expiry_when_validity_window_passes() {
    // Finalized heights reach past the last valid height without the
    // signature landing: the record expires and the status query reports
    // it absent.
    let mut txs = TxTracker::new();
    txs.register("sigB".to_string(), 100, 0, 10);
    txs.mark_forwarded(&"sigB".to_string(), 11);
    txs.process_finalized_height(100, 20);
    assert!(txs.get_status(&"sigB".to_string()).is_none()); // still pending, not expired
    txs.process_finalized_height(101, 30);
    assert!(txs.get_status(&"sigB".to_string()).is_none()); // expired: absent
    // an expired record never lands
    let in_block = sigs(&["sigB"]);
    txs.process_block(700, Commitment::Confirmed, &in_block, 40);
    assert!(txs.get_status(&"sigB".to_string()).is_none());
}

#[test]
fn duplicate_registration_is_refused() {
    let mut txs = TxTracker::new();
    assert!(txs.register("sigC".to_string(), 100, 0, 10));
    assert!(!txs.register("sigC".to_string(), 200, 5, 20));
}

#[test]
fn retry_budget_only_while_sent() {
    let mut txs = TxTracker::new();
    txs.register("sigD".to_string(), 1000, 2, 10);
    // queued: no retry yet
    assert!(!txs.take_retry(&"sigD".to_string()));
    txs.mark_forwarded(&"sigD".to_string(), 11);
    assert!(txs.take_retry(&"sigD".to_string()));
    assert!(txs.take_retry(&"sigD".to_string()));
    assert!(!txs.take_retry(&"sigD".to_string())); // budget spent
    // a landed transaction is never retried
    let mut txs2 = TxTracker::new();
    txs2.register("sigE".to_string(), 1000, 3, 10);
    txs2.mark_forwarded(&"sigE".to_string(), 11);
    txs2.process_block(500, Commitment::Processed, &sigs(&["sigE"]), 20);
    assert!(!txs2.take_retry(&"sigE".to_string()));
}
