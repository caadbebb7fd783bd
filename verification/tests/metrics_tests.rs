use lite_rpc::metrics::AvgMetric;
use lite_rpc::metrics::Metric;

#[test]
fn finalize_computes_guarded_averages() {
    let mut m = Metric::default();
    m.add_successful_transaction(100, 150, 10);
    m.add_successful_transaction(150, 250, 30);
    m.add_unsuccessful_transaction(50, 20);
    m.set_total_gross_send_time(1000);
    m.finalize();
    assert_eq!(m.txs_sent, 3);
    assert_eq!(m.txs_confirmed, 2);
    assert_eq!(m.txs_un_confirmed, 1);
    assert_eq!(m.average_time_to_send_txs_ms, 100); // 300 / 3
    assert_eq!(m.average_transaction_bytes, 20); // 60 / 3
    assert_eq!(m.average_confirmation_time_ms, 200); // 400 / 2
    assert_eq!(m.send_tps, 3); // 3 txs in 1 second
}

#[test]
fn finalize_on_empty_metric_stays_zero() {
    let mut m = Metric::default();
    m.finalize();
    assert_eq!(m, Metric::default());
}

#[test]
fn calc_tps_reports_confirmed_count() {
    let mut m = Metric::default();
    m.add_successful_transaction(1, 1, 1);
    m.add_successful_transaction(1, 1, 1);
    assert_eq!(m.calc_tps(), 2);
}

#[test]
fn rollup_of_zero_runs_is_zero() {
    // averaging across no runs yields zeros, not an undefined value
    let avg = AvgMetric::default();
    assert_eq!(avg.into_avg(), Metric::default());
}

#[test]
fn rollup_of_all_zero_runs_is_zero() {
    let mut avg = AvgMetric::default();
    for _ in 0..5 {
        avg.add_run(&Metric::default());
    }
    assert_eq!(avg.into_avg(), Metric::default());
}

#[test]
fn rollup_of_identical_runs_is_that_run() {
    let mut m = Metric::default();
    m.add_successful_transaction(100, 150, 10);
    m.add_successful_transaction(150, 250, 30);
    m.add_unsuccessful_transaction(50, 20);
    m.set_total_gross_send_time(1000);
    m.finalize();

    let mut avg = AvgMetric::default();
    for _ in 0..4 {
        avg.add_run(&m);
    }
    assert_eq!(avg.into_avg(), m);
}

#[test]
fn divide_by_zero_runs_leaves_metric() {
    let mut m = Metric::default();
    m.add_successful_transaction(10, 10, 10);
    let before = m;
    m.divide(0);
    assert_eq!(m, before);
}
