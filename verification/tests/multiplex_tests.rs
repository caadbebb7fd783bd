use lite_rpc::Commitment;
use lite_rpc::multiplex::BlockDedup;
use lite_rpc::multiplex::FastestWinsMultiplexer;
use lite_rpc::multiplex::SlotGate;
use lite_rpc::multiplex::StallMonitor;

#[test]
fn fastest_wins_dedup_across_sources() {
    // Source A delivers 100 first, B delivers 101 first, A delivers 102
    // first; the late copies from the other source are all suppressed and
    // the merged order is exactly 100, 101, 102.
    let mut mux = FastestWinsMultiplexer::new();
    assert!(mux.offer(100)); // A
    assert!(mux.offer(101)); // B
    assert!(!mux.offer(100)); // B, late
    assert!(mux.offer(102)); // A
    assert!(!mux.offer(101)); // A, late
    assert!(!mux.offer(102)); // B, late
}

#[test]
fn fastest_wins_suppresses_stale_slots() {
    let mut mux = FastestWinsMultiplexer::new();
    assert!(mux.offer(10));
    assert!(!mux.offer(10));
    assert!(!mux.offer(9));
    assert!(mux.offer(11));
}

#[test]
fn slot_gate_forwards_only_progress() {
    let mut gate = SlotGate::new();
    assert!(gate.offer(5, 6));
    assert!(!gate.offer(5, 6));
    assert!(!gate.offer(4, 5));
    // an advance of the estimated slot alone passes
    assert!(gate.offer(4, 7));
    // after a forward both watermarks move to the forwarded values
    assert!(gate.offer(5, 5));
}

#[test]
fn block_dedup_one_pass_per_slot_and_level() {
    let mut dedup = BlockDedup::new();
    assert!(dedup.offer(1, Commitment::Processed));
    assert!(!dedup.offer(1, Commitment::Processed));
    assert!(dedup.offer(1, Commitment::Confirmed));
    assert!(dedup.offer(1, Commitment::Finalized));
    assert!(dedup.offer(2, Commitment::Processed));
    assert!(!dedup.offer(1, Commitment::Confirmed));
}

#[test]
fn block_dedup_keeps_each_level_non_decreasing() {
    let mut dedup = BlockDedup::new();
    assert!(dedup.offer(5, Commitment::Processed));
    assert!(dedup.offer(7, Commitment::Processed));
    // a stale slot on the same level is suppressed, even though unseen
    assert!(!dedup.offer(6, Commitment::Processed));
    // the other levels keep their own watermarks
    assert!(dedup.offer(6, Commitment::Confirmed));
    assert!(dedup.offer(7, Commitment::Confirmed));
    // an equal slot passes once and only once
    assert!(!dedup.offer(7, Commitment::Processed));
    assert!(dedup.offer(8, Commitment::Processed));
}

#[test]
fn stall_monitor_warns_after_threshold() {
    let mut monitor = StallMonitor::new(30000, 1000);
    assert!(!monitor.is_stalled(1000));
    assert!(!monitor.is_stalled(31000)); // exactly at the threshold: not yet
    assert!(monitor.is_stalled(31001));
    monitor.note_message(40000);
    assert!(!monitor.is_stalled(60000));
}

#[test]
fn block_dedup_evicts_least_pair_when_full() {
    let mut dedup = BlockDedup::new();
    for slot in 0..1024u64 {
        assert!(dedup.offer(slot, Commitment::Processed));
    }
    assert!(!dedup.offer(0, Commitment::Processed));
    // one more pair evicts the least remembered pair; the watermark keeps
    // the evicted slot suppressed for good
    assert!(dedup.offer(5000, Commitment::Processed));
    assert!(!dedup.offer(0, Commitment::Processed));
    assert!(!dedup.offer(5000, Commitment::Processed));
    assert!(dedup.offer(5001, Commitment::Processed));
}
