use lite_rpc::Commitment;
use lite_rpc::auditor::ConfirmationAuditor;
use lite_rpc::auditor::ListenAuditor;

#[test]
fn clean_ladder_raises_no_flags() {
    let mut auditor = ConfirmationAuditor::new();
    let r = auditor.observe(10, Commitment::Processed, 100);
    assert!(!r.duplicate_level && !r.skipped && !r.cleaned_up);
    assert!(!r.confirmed_without_processed && !r.finalized_without_processed);
    let r = auditor.observe(10, Commitment::Confirmed, 110);
    assert!(!r.duplicate_level && !r.confirmed_without_processed && !r.confirmed_after_finalized);
    let r = auditor.observe(10, Commitment::Finalized, 120);
    assert!(!r.duplicate_level && !r.finalized_without_processed && !r.finalized_without_confirmed);
}

#[test]
fn duplicate_level_is_reported() {
    let mut auditor = ConfirmationAuditor::new();
    auditor.observe(10, Commitment::Processed, 100);
    let r = auditor.observe(10, Commitment::Processed, 105);
    assert!(r.duplicate_level);
}

#[test]
fn out_of_order_levels_are_reported() {
    let mut auditor = ConfirmationAuditor::new();
    // confirmed with no processed observation first
    let r = auditor.observe(20, Commitment::Confirmed, 100);
    assert!(r.confirmed_without_processed);
    // processed arriving after confirmed
    let r = auditor.observe(20, Commitment::Processed, 110);
    assert!(r.processed_after_confirmed);
    // finalized without confirmed on a fresh slot
    let r = auditor.observe(21, Commitment::Finalized, 120);
    assert!(r.finalized_without_processed && r.finalized_without_confirmed);
    // confirmed after finalized
    let r = auditor.observe(21, Commitment::Confirmed, 130);
    assert!(r.confirmed_after_finalized);
}

#[test]
fn cleanup_runs_after_five_hundred_observations() {
    let mut auditor = ConfirmationAuditor::new();
    let mut cleaned = 0;
    for i in 0..502u64 {
        let r = auditor.observe(1000 + i, Commitment::Processed, i);
        if r.cleaned_up {
            cleaned += 1;
            // the watermark moved behind the triggering block
            let skipped = auditor.observe(1000 + i - 300, Commitment::Processed, i);
            assert!(skipped.skipped);
        }
    }
    assert_eq!(cleaned, 1);
    // the cleanup (triggered by slot 1500) kept the records inside the
    // window: slot 1400 is still remembered, so seeing it again at the
    // same level is a duplicate
    let r = auditor.observe(1400, Commitment::Processed, 999);
    assert!(r.duplicate_level);
}

#[test]
fn listen_auditor_checks_order_and_parent() {
    let mut listen = ListenAuditor::new(Commitment::Finalized);
    // another commitment: ignored
    let r = listen.observe(10, 9, Commitment::Processed);
    assert!(r.ignored);
    // first block: no parent comparison yet
    let r = listen.observe(10, 9, Commitment::Finalized);
    assert!(!r.ignored);
    assert_eq!(r.parent_matches, None);
    assert!(r.monotonic);
    // linked and advancing
    let r = listen.observe(11, 10, Commitment::Finalized);
    assert_eq!(r.parent_matches, Some(true));
    assert!(r.monotonic);
    // out of order and unlinked
    let r = listen.observe(11, 8, Commitment::Finalized);
    assert_eq!(r.parent_matches, Some(false));
    assert!(!r.monotonic);
}
