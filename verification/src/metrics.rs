//! Per-run benchmark metrics and the average-across-runs rollup. All
//! times are integer milliseconds; every division is guarded, so a rollup
//! across zero runs stays zero instead of becoming undefined.
use vstd::prelude::*;

verus! {

/// Counters and derived averages of one benchmark run. The `total_*`
/// fields are the raw accumulators; `finalize` computes the averages from
/// them.
#[derive(Clone, Copy, Debug, PartialEq, Eq, Structural)]
pub struct Metric {
    pub txs_sent: u64,
    pub txs_confirmed: u64,
    pub txs_un_confirmed: u64,
    pub average_confirmation_time_ms: u64,
    pub average_time_to_send_txs_ms: u64,
    pub average_transaction_bytes: u64,
    pub send_tps: u64,
    pub total_sent_time_ms: u64,
    pub total_transaction_bytes: u64,
    pub total_confirmation_time_ms: u64,
    pub total_gross_send_time_ms: u64,
}

/// The all-zero metric.
pub open spec fn spec_zero_metric() -> Metric {
    Metric {
        txs_sent: 0,
        txs_confirmed: 0,
        txs_un_confirmed: 0,
        average_confirmation_time_ms: 0,
        average_time_to_send_txs_ms: 0,
        average_transaction_bytes: 0,
        send_tps: 0,
        total_sent_time_ms: 0,
        total_transaction_bytes: 0,
        total_confirmation_time_ms: 0,
        total_gross_send_time_ms: 0,
    }
}

/// Recompute the averages from the accumulators: each one only where its
/// denominator is positive, so zero counts yield zeros, never an
/// undefined value.
pub open spec fn spec_finalize(m: Metric) -> Metric {
    Metric {
        average_time_to_send_txs_ms: if m.txs_sent > 0 {
            (m.total_sent_time_ms / m.txs_sent) as u64
        } else {
            m.average_time_to_send_txs_ms
        },
        average_transaction_bytes: if m.txs_sent > 0 {
            (m.total_transaction_bytes / m.txs_sent) as u64
        } else {
            m.average_transaction_bytes
        },
        send_tps: if m.total_gross_send_time_ms > 0 {
            ((m.txs_sent * 1000) as u64 / m.total_gross_send_time_ms) as u64
        } else {
            m.send_tps
        },
        average_confirmation_time_ms: if m.txs_confirmed > 0 {
            (m.total_confirmation_time_ms / m.txs_confirmed) as u64
        } else {
            m.average_confirmation_time_ms
        },
        ..m
    }
}

/// Counts, accumulators and the throughput figure of both metrics summed;
/// averages left for `spec_finalize`.
pub open spec fn spec_add_metric(a: Metric, b: Metric) -> Metric {
    Metric {
        txs_sent: (a.txs_sent + b.txs_sent) as u64,
        txs_confirmed: (a.txs_confirmed + b.txs_confirmed) as u64,
        txs_un_confirmed: (a.txs_un_confirmed + b.txs_un_confirmed) as u64,
        total_sent_time_ms: (a.total_sent_time_ms + b.total_sent_time_ms) as u64,
        total_transaction_bytes: (a.total_transaction_bytes + b.total_transaction_bytes) as u64,
        total_confirmation_time_ms: (a.total_confirmation_time_ms
            + b.total_confirmation_time_ms) as u64,
        total_gross_send_time_ms: (a.total_gross_send_time_ms + b.total_gross_send_time_ms) as u64,
        send_tps: (a.send_tps + b.send_tps) as u64,
        ..a
    }
}

/// The sums of `spec_add_metric` stay in range.
pub open spec fn add_fits(a: Metric, b: Metric) -> bool {
    &&& a.txs_sent + b.txs_sent <= u64::MAX
    &&& a.txs_confirmed + b.txs_confirmed <= u64::MAX
    &&& a.txs_un_confirmed + b.txs_un_confirmed <= u64::MAX
    &&& a.total_sent_time_ms + b.total_sent_time_ms <= u64::MAX
    &&& a.total_transaction_bytes + b.total_transaction_bytes <= u64::MAX
    &&& a.total_confirmation_time_ms + b.total_confirmation_time_ms <= u64::MAX
    &&& a.total_gross_send_time_ms + b.total_gross_send_time_ms <= u64::MAX
    &&& a.send_tps + b.send_tps <= u64::MAX
}

/// Every count, accumulator and the throughput figure divided by the run
/// count; averages left for `spec_finalize`.
pub open spec fn spec_div_metric(m: Metric, runs: u64) -> Metric
    recommends
        runs > 0,
{
    Metric {
        txs_sent: (m.txs_sent / runs) as u64,
        txs_confirmed: (m.txs_confirmed / runs) as u64,
        txs_un_confirmed: (m.txs_un_confirmed / runs) as u64,
        total_sent_time_ms: (m.total_sent_time_ms / runs) as u64,
        total_transaction_bytes: (m.total_transaction_bytes / runs) as u64,
        total_confirmation_time_ms: (m.total_confirmation_time_ms / runs) as u64,
        total_gross_send_time_ms: (m.total_gross_send_time_ms / runs) as u64,
        send_tps: (m.send_tps / runs) as u64,
        ..m
    }
}

impl Default for Metric {
    /// The all-zero metric.
    fn default() -> (r: Metric)
        ensures
            r == spec_zero_metric(),
    {
        Metric {
            txs_sent: 0,
            txs_confirmed: 0,
            txs_un_confirmed: 0,
            average_confirmation_time_ms: 0,
            average_time_to_send_txs_ms: 0,
            average_transaction_bytes: 0,
            send_tps: 0,
            total_sent_time_ms: 0,
            total_transaction_bytes: 0,
            total_confirmation_time_ms: 0,
            total_gross_send_time_ms: 0,
        }
    }
}

impl Metric {
    /// Count one transaction that was sent and confirmed.
    pub fn add_successful_transaction(
        &mut self,
        time_to_send_ms: u64,
        time_to_confirm_ms: u64,
        transaction_bytes: u64,
    )
        requires
            old(self).total_sent_time_ms + time_to_send_ms <= u64::MAX,
            old(self).total_confirmation_time_ms + time_to_confirm_ms <= u64::MAX,
            old(self).total_transaction_bytes + transaction_bytes <= u64::MAX,
            old(self).txs_confirmed < u64::MAX,
            old(self).txs_sent < u64::MAX,
        ensures
            *final(self) == (Metric {
                total_sent_time_ms: (old(self).total_sent_time_ms + time_to_send_ms) as u64,
                total_confirmation_time_ms: (old(self).total_confirmation_time_ms
                    + time_to_confirm_ms) as u64,
                total_transaction_bytes: (old(self).total_transaction_bytes
                    + transaction_bytes) as u64,
                txs_confirmed: (old(self).txs_confirmed + 1) as u64,
                txs_sent: (old(self).txs_sent + 1) as u64,
                ..*old(self)
            }),
    {
        self.total_sent_time_ms = self.total_sent_time_ms + time_to_send_ms;
        self.total_confirmation_time_ms = self.total_confirmation_time_ms + time_to_confirm_ms;
        self.total_transaction_bytes = self.total_transaction_bytes + transaction_bytes;
        self.txs_confirmed = self.txs_confirmed + 1;
        self.txs_sent = self.txs_sent + 1;
    }

    /// Count one transaction that was sent but never confirmed.
    pub fn add_unsuccessful_transaction(&mut self, time_to_send_ms: u64, transaction_bytes: u64)
        requires
            old(self).total_sent_time_ms + time_to_send_ms <= u64::MAX,
            old(self).total_transaction_bytes + transaction_bytes <= u64::MAX,
            old(self).txs_un_confirmed < u64::MAX,
            old(self).txs_sent < u64::MAX,
        ensures
            *final(self) == (Metric {
                total_sent_time_ms: (old(self).total_sent_time_ms + time_to_send_ms) as u64,
                total_transaction_bytes: (old(self).total_transaction_bytes
                    + transaction_bytes) as u64,
                txs_un_confirmed: (old(self).txs_un_confirmed + 1) as u64,
                txs_sent: (old(self).txs_sent + 1) as u64,
                ..*old(self)
            }),
    {
        self.total_sent_time_ms = self.total_sent_time_ms + time_to_send_ms;
        self.total_transaction_bytes = self.total_transaction_bytes + transaction_bytes;
        self.txs_un_confirmed = self.txs_un_confirmed + 1;
        self.txs_sent = self.txs_sent + 1;
    }

    /// Recompute the averages from the accumulators.
    pub fn finalize(&mut self)
        requires
            old(self).txs_sent * 1000 <= u64::MAX,
        ensures
            *final(self) == spec_finalize(*old(self)),
    {
        if self.txs_sent > 0 {
            self.average_time_to_send_txs_ms = self.total_sent_time_ms / self.txs_sent;
            self.average_transaction_bytes = self.total_transaction_bytes / self.txs_sent;
        }
        if self.total_gross_send_time_ms > 0 {
            self.send_tps = (self.txs_sent * 1000) / self.total_gross_send_time_ms;
        }
        if self.txs_confirmed > 0 {
            self.average_confirmation_time_ms = self.total_confirmation_time_ms
                / self.txs_confirmed;
        }
    }

    /// Set the wall-clock duration of the whole send phase.
    pub fn set_total_gross_send_time(&mut self, total_gross_send_time_ms: u64)
        ensures
            *final(self) == (Metric { total_gross_send_time_ms, ..*old(self) }),
    {
        self.total_gross_send_time_ms = total_gross_send_time_ms;
    }

    /// The confirmed-transaction count, as the bench reports it.
    pub fn calc_tps(&mut self) -> (r: u64)
        ensures
            *final(self) == *old(self),
            r == old(self).txs_confirmed,
    {
        self.txs_confirmed
    }

    /// Fold another run's metric in: counts, accumulators and throughput
    /// add up, and the averages are recomputed.
    pub fn accumulate(&mut self, rhs: &Metric)
        requires
            add_fits(*old(self), *rhs),
            (old(self).txs_sent + rhs.txs_sent) * 1000 <= u64::MAX,
        ensures
            *final(self) == spec_finalize(spec_add_metric(*old(self), *rhs)),
    {
        self.txs_sent = self.txs_sent + rhs.txs_sent;
        self.txs_confirmed = self.txs_confirmed + rhs.txs_confirmed;
        self.txs_un_confirmed = self.txs_un_confirmed + rhs.txs_un_confirmed;
        self.total_confirmation_time_ms = self.total_confirmation_time_ms
            + rhs.total_confirmation_time_ms;
        self.total_sent_time_ms = self.total_sent_time_ms + rhs.total_sent_time_ms;
        self.total_transaction_bytes = self.total_transaction_bytes + rhs.total_transaction_bytes;
        self.total_gross_send_time_ms = self.total_gross_send_time_ms
            + rhs.total_gross_send_time_ms;
        self.send_tps = self.send_tps + rhs.send_tps;
        self.finalize();
    }

    /// Divide every count, accumulator and the throughput figure by the
    /// run count and recompute the averages; dividing by zero runs leaves
    /// the metric as it is.
    pub fn divide(&mut self, runs: u64)
        requires
            old(self).txs_sent * 1000 <= u64::MAX,
        ensures
            *final(self) == (if runs == 0 {
                *old(self)
            } else {
                spec_finalize(spec_div_metric(*old(self), runs))
            }),
    {
        if runs == 0 {
            return ;
        }
        self.txs_sent = self.txs_sent / runs;
        self.txs_confirmed = self.txs_confirmed / runs;
        self.txs_un_confirmed = self.txs_un_confirmed / runs;
        self.total_confirmation_time_ms = self.total_confirmation_time_ms / runs;
        self.total_sent_time_ms = self.total_sent_time_ms / runs;
        self.total_transaction_bytes = self.total_transaction_bytes / runs;
        self.send_tps = self.send_tps / runs;
        self.total_gross_send_time_ms = self.total_gross_send_time_ms / runs;
        proof {
            let ghost sent = self.txs_sent;
            let ghost sent0 = old(self).txs_sent;
            assert(sent <= sent0) by (nonlinear_arith)
                requires
                    sent == sent0 / runs,
                    runs >= 1,
            ;
        }
        self.finalize();
    }
}

/// The across-runs rollup: a running total and the number of runs folded
/// into it.
#[derive(Clone, Copy, Debug, PartialEq, Eq, Structural)]
pub struct AvgMetric {
    pub num_of_runs: u64,
    pub total_metric: Metric,
}

impl Default for AvgMetric {
    /// A rollup of zero runs.
    fn default() -> (r: AvgMetric)
        ensures
            r == (AvgMetric { num_of_runs: 0, total_metric: spec_zero_metric() }),
    {
        AvgMetric { num_of_runs: 0, total_metric: Metric::default() }
    }
}

impl AvgMetric {
    /// Fold one more run into the rollup.
    pub fn add_run(&mut self, rhs: &Metric)
        requires
            old(self).num_of_runs < u64::MAX,
            add_fits(old(self).total_metric, *rhs),
            (old(self).total_metric.txs_sent + rhs.txs_sent) * 1000 <= u64::MAX,
        ensures
            *final(self) == (AvgMetric {
                num_of_runs: (old(self).num_of_runs + 1) as u64,
                total_metric: spec_finalize(spec_add_metric(old(self).total_metric, *rhs)),
            }),
    {
        self.num_of_runs = self.num_of_runs + 1;
        self.total_metric.accumulate(rhs);
    }

    /// The average across the folded runs; a rollup of zero runs yields
    /// its total unchanged (all zeros when nothing was folded in).
    pub fn into_avg(self) -> (r: Metric)
        requires
            self.total_metric.txs_sent * 1000 <= u64::MAX,
        ensures
            r == (if self.num_of_runs == 0 {
                self.total_metric
            } else {
                spec_finalize(spec_div_metric(self.total_metric, self.num_of_runs))
            }),
    {
        let mut m = self.total_metric;
        m.divide(self.num_of_runs);
        m
    }
}

/// Recomputing the averages twice is recomputing them once.
pub proof fn lemma_finalize_idempotent(m: Metric)
    ensures
        spec_finalize(spec_finalize(m)) == spec_finalize(m),
{
}

/// One confirmation report for the external ping aggregator. The fields
/// are already rendered to text; an outside reporter serializes and posts
/// them.
pub struct PingThingData {
    pub application: String,
    pub commitment_level: String,
    pub signature: String,
    pub success: bool,
    pub time: String,
    pub transaction_type: String,
    pub slot_sent: String,
    pub slot_landed: String,
    pub reported_at: String,
}


/// Every run folded into a zero total, oldest first.
pub open spec fn spec_accum_all(runs: Seq<Metric>) -> Metric
    decreases runs.len(),
{
    if runs.len() == 0 {
        spec_zero_metric()
    } else {
        spec_finalize(spec_add_metric(spec_accum_all(runs.drop_last()), runs.last()))
    }
}

/// The rollup: every run folded in, then averaged across the run count; a
/// rollup of no runs is all-zero.
pub open spec fn spec_rollup(runs: Seq<Metric>) -> Metric {
    if runs.len() == 0 {
        spec_zero_metric()
    } else {
        spec_finalize(spec_div_metric(spec_accum_all(runs), runs.len() as u64))
    }
}

/// A metric whose averages agree with its accumulators: recomputing them
/// changes nothing, and a zero denominator comes with a zero average.
pub open spec fn consistent(m: Metric) -> bool {
    &&& m == spec_finalize(m)
    &&& m.txs_sent == 0 ==> m.average_time_to_send_txs_ms == 0 && m.average_transaction_bytes == 0
    &&& m.txs_confirmed == 0 ==> m.average_confirmation_time_ms == 0
}

/// Summing `k` copies of the metric stays in range.
pub open spec fn scale_fits(m: Metric, k: int) -> bool {
    &&& k * m.txs_sent <= u64::MAX
    &&& k * m.txs_confirmed <= u64::MAX
    &&& k * m.txs_un_confirmed <= u64::MAX
    &&& k * m.total_sent_time_ms <= u64::MAX
    &&& k * m.total_transaction_bytes <= u64::MAX
    &&& k * m.total_confirmation_time_ms <= u64::MAX
    &&& k * m.total_gross_send_time_ms <= u64::MAX
    &&& k * m.send_tps <= u64::MAX
    &&& k * m.txs_sent * 1000 <= u64::MAX
}

/// The running total after `k` identical consistent runs: counts and
/// accumulators scaled, averages as in the run itself, and the throughput
/// figure recomputed (or accumulated while no gross time is known).
pub open spec fn spec_scaled(m: Metric, k: int) -> Metric {
    Metric {
        txs_sent: (k * m.txs_sent) as u64,
        txs_confirmed: (k * m.txs_confirmed) as u64,
        txs_un_confirmed: (k * m.txs_un_confirmed) as u64,
        total_sent_time_ms: (k * m.total_sent_time_ms) as u64,
        total_transaction_bytes: (k * m.total_transaction_bytes) as u64,
        total_confirmation_time_ms: (k * m.total_confirmation_time_ms) as u64,
        total_gross_send_time_ms: (k * m.total_gross_send_time_ms) as u64,
        send_tps: if m.total_gross_send_time_ms > 0 {
            m.send_tps
        } else {
            (k * m.send_tps) as u64
        },
        ..m
    }
}

/// Scaling numerator and denominator by one factor leaves the quotient
/// unchanged.
proof fn lemma_div_scaled(a: int, b: int, k: int)
    requires
        a >= 0,
        b > 0,
        k > 0,
    ensures
        (k * a) / (k * b) == a / b,
{
    let q = a / b;
    let r = a % b;
    vstd::arithmetic::div_mod::lemma_fundamental_div_mod(a, b);
    vstd::arithmetic::div_mod::lemma_mod_bound(a, b);
    assert(k * a == q * (k * b) + k * r) by (nonlinear_arith)
        requires
            a == b * (a / b) + a % b,
            q == a / b,
            r == a % b,
    ;
    assert(0 <= k * r < k * b) by (nonlinear_arith)
        requires
            k > 0,
            0 <= r < b,
    ;
    assert(k * b != 0) by (nonlinear_arith)
        requires
            k > 0,
            b > 0,
    ;
    vstd::arithmetic::div_mod::lemma_fundamental_div_mod_converse(k * a, k * b, q, k * r);
}

/// Scaling by a nonnegative factor keeps every field nonnegative.
proof fn lemma_scale_nonneg(m: Metric, k: int)
    requires
        k >= 0,
    ensures
        k * m.txs_sent >= 0,
        k * m.txs_confirmed >= 0,
        k * m.txs_un_confirmed >= 0,
        k * m.total_sent_time_ms >= 0,
        k * m.total_transaction_bytes >= 0,
        k * m.total_confirmation_time_ms >= 0,
        k * m.total_gross_send_time_ms >= 0,
        k * m.send_tps >= 0,
        k * m.txs_sent * 1000 >= 0,
{
    assert(k * m.txs_sent >= 0) by (nonlinear_arith)
        requires
            k >= 0,
    ;
    assert(k * m.txs_confirmed >= 0) by (nonlinear_arith)
        requires
            k >= 0,
    ;
    assert(k * m.txs_un_confirmed >= 0) by (nonlinear_arith)
        requires
            k >= 0,
    ;
    assert(k * m.total_sent_time_ms >= 0) by (nonlinear_arith)
        requires
            k >= 0,
    ;
    assert(k * m.total_transaction_bytes >= 0) by (nonlinear_arith)
        requires
            k >= 0,
    ;
    assert(k * m.total_confirmation_time_ms >= 0) by (nonlinear_arith)
        requires
            k >= 0,
    ;
    assert(k * m.total_gross_send_time_ms >= 0) by (nonlinear_arith)
        requires
            k >= 0,
    ;
    assert(k * m.send_tps >= 0) by (nonlinear_arith)
        requires
            k >= 0,
    ;
    assert(k * m.txs_sent * 1000 >= 0) by (nonlinear_arith)
        requires
            k >= 0,
    ;
}

/// A smaller factor also fits.
proof fn lemma_scale_fits_mono(m: Metric, j: int, k: int)
    requires
        0 <= j <= k,
        scale_fits(m, k),
    ensures
        scale_fits(m, j),
{
    assert(j * m.txs_sent <= k * m.txs_sent) by (nonlinear_arith)
        requires
            0 <= j <= k,
    ;
    assert(j * m.txs_confirmed <= k * m.txs_confirmed) by (nonlinear_arith)
        requires
            0 <= j <= k,
    ;
    assert(j * m.txs_un_confirmed <= k * m.txs_un_confirmed) by (nonlinear_arith)
        requires
            0 <= j <= k,
    ;
    assert(j * m.total_sent_time_ms <= k * m.total_sent_time_ms) by (nonlinear_arith)
        requires
            0 <= j <= k,
    ;
    assert(j * m.total_transaction_bytes <= k * m.total_transaction_bytes) by (nonlinear_arith)
        requires
            0 <= j <= k,
    ;
    assert(j * m.total_confirmation_time_ms <= k * m.total_confirmation_time_ms) by (
    nonlinear_arith)
        requires
            0 <= j <= k,
    ;
    assert(j * m.total_gross_send_time_ms <= k * m.total_gross_send_time_ms) by (nonlinear_arith)
        requires
            0 <= j <= k,
    ;
    assert(j * m.send_tps <= k * m.send_tps) by (nonlinear_arith)
        requires
            0 <= j <= k,
    ;
    assert(j * m.txs_sent * 1000 <= k * m.txs_sent * 1000) by (nonlinear_arith)
        requires
            0 <= j <= k,
    ;
}

/// Folding identical consistent runs scales the accumulators.
proof fn lemma_accum_identical(runs: Seq<Metric>, m: Metric)
    requires
        runs.len() >= 1,
        forall|i: int| 0 <= i < runs.len() ==> runs[i] == m,
        consistent(m),
        scale_fits(m, runs.len() as int),
    ensures
        spec_accum_all(runs) == spec_scaled(m, runs.len() as int),
    decreases runs.len(),
{
    let n = runs.len() as int;
    if n == 1 {
        assert(spec_accum_all(runs.drop_last()) == spec_zero_metric());
        let summed = spec_add_metric(spec_zero_metric(), m);
        if m.total_gross_send_time_ms > 0 {
            assert(m.send_tps == (m.txs_sent * 1000) as u64 / m.total_gross_send_time_ms);
        }
        let fin = spec_finalize(summed);
        assert(fin.txs_sent == m.txs_sent);
        assert(fin.average_time_to_send_txs_ms == m.average_time_to_send_txs_ms);
        assert(fin.average_transaction_bytes == m.average_transaction_bytes);
        assert(fin.average_confirmation_time_ms == m.average_confirmation_time_ms);
        assert(fin.send_tps == m.send_tps);
        assert(1 * m.txs_sent == m.txs_sent);
        assert(1 * m.txs_confirmed == m.txs_confirmed);
        assert(1 * m.txs_un_confirmed == m.txs_un_confirmed);
        assert(1 * m.total_sent_time_ms == m.total_sent_time_ms);
        assert(1 * m.total_transaction_bytes == m.total_transaction_bytes);
        assert(1 * m.total_confirmation_time_ms == m.total_confirmation_time_ms);
        assert(1 * m.total_gross_send_time_ms == m.total_gross_send_time_ms);
        assert(1 * m.send_tps == m.send_tps);
        assert(spec_scaled(m, 1) == m);
        assert(spec_finalize(summed) == spec_scaled(m, 1));
    } else {
        lemma_scale_fits_mono(m, n - 1, n);
        lemma_scale_nonneg(m, n);
        lemma_scale_nonneg(m, n - 1);
        assert(forall|i: int| 0 <= i < runs.drop_last().len() ==> runs.drop_last()[i] == runs[i]);
        lemma_accum_identical(runs.drop_last(), m);
        let prev = spec_scaled(m, n - 1);
        let summed = spec_add_metric(prev, m);
        assert(runs.last() == m);

        // the sums stay untruncated
        assert((n - 1) * m.txs_sent + m.txs_sent == n * m.txs_sent) by (nonlinear_arith);
        assert((n - 1) * m.txs_confirmed + m.txs_confirmed == n * m.txs_confirmed) by (
        nonlinear_arith);
        assert((n - 1) * m.txs_un_confirmed + m.txs_un_confirmed == n * m.txs_un_confirmed) by (
        nonlinear_arith);
        assert((n - 1) * m.total_sent_time_ms + m.total_sent_time_ms == n * m.total_sent_time_ms)
            by (nonlinear_arith);
        assert((n - 1) * m.total_transaction_bytes + m.total_transaction_bytes == n
            * m.total_transaction_bytes) by (nonlinear_arith);
        assert((n - 1) * m.total_confirmation_time_ms + m.total_confirmation_time_ms == n
            * m.total_confirmation_time_ms) by (nonlinear_arith);
        assert((n - 1) * m.total_gross_send_time_ms + m.total_gross_send_time_ms == n
            * m.total_gross_send_time_ms) by (nonlinear_arith);
        assert((n - 1) * m.send_tps + m.send_tps == n * m.send_tps) by (nonlinear_arith);

        // averages: scaled accumulators divide back to the run's averages
        if m.txs_sent > 0 {
            assert(n * m.txs_sent > 0) by (nonlinear_arith)
                requires
                    n > 0,
                    m.txs_sent > 0,
            ;
            lemma_div_scaled(m.total_sent_time_ms as int, m.txs_sent as int, n);
            lemma_div_scaled(m.total_transaction_bytes as int, m.txs_sent as int, n);
        }
        if m.txs_confirmed > 0 {
            assert(n * m.txs_confirmed > 0) by (nonlinear_arith)
                requires
                    n > 0,
                    m.txs_confirmed > 0,
            ;
            lemma_div_scaled(m.total_confirmation_time_ms as int, m.txs_confirmed as int, n);
        }
        if m.total_gross_send_time_ms > 0 {
            assert(n * m.total_gross_send_time_ms > 0) by (nonlinear_arith)
                requires
                    n > 0,
                    m.total_gross_send_time_ms > 0,
            ;
            assert(n * m.txs_sent * 1000 == n * (m.txs_sent * 1000)) by (nonlinear_arith);
            lemma_div_scaled((m.txs_sent * 1000) as int, m.total_gross_send_time_ms as int, n);
            assert(m.send_tps == (m.txs_sent * 1000) as u64 / m.total_gross_send_time_ms);
        }
        assert(spec_finalize(summed) == spec_scaled(m, n));
    }
}

/// Rolled up across all-zero runs, the average is all-zero.
pub proof fn lemma_rollup_zero_runs(runs: Seq<Metric>)
    requires
        runs.len() <= u64::MAX,
        forall|i: int| 0 <= i < runs.len() ==> runs[i] == spec_zero_metric(),
    ensures
        spec_rollup(runs) == spec_zero_metric(),
{
    lemma_accum_zero(runs);
    let n = runs.len() as int;
    if n > 0 {
        let z = spec_zero_metric();
        vstd::arithmetic::div_mod::lemma_div_of0(n);
        assert(z.txs_sent / (n as u64) == 0);
        assert(spec_div_metric(z, n as u64) == z);
        assert(spec_finalize(z) == z);
    }
}

proof fn lemma_accum_zero(runs: Seq<Metric>)
    requires
        forall|i: int| 0 <= i < runs.len() ==> runs[i] == spec_zero_metric(),
    ensures
        spec_accum_all(runs) == spec_zero_metric(),
    decreases runs.len(),
{
    if runs.len() > 0 {
        assert(forall|i: int| 0 <= i < runs.drop_last().len() ==> runs.drop_last()[i] == runs[i]);
        lemma_accum_zero(runs.drop_last());
        let z = spec_zero_metric();
        assert(spec_add_metric(z, z) == z);
        assert(spec_finalize(z) == z);
    }
}

/// Any metric whose average fields are still zero — as `Default::default`,
/// the transaction counters and `set_total_gross_send_time` leave them —
/// is consistent once finalized. This is how every rollup input built
/// through this module's functions meets `consistent`.
pub proof fn lemma_fresh_finalize_consistent(m: Metric)
    requires
        m.average_time_to_send_txs_ms == 0,
        m.average_transaction_bytes == 0,
        m.average_confirmation_time_ms == 0,
    ensures
        consistent(spec_finalize(m)),
{
    lemma_finalize_idempotent(m);
}

/// Rolled up across identical consistent runs, the average is that run's
/// metric.
pub proof fn lemma_rollup_identical_runs(runs: Seq<Metric>, m: Metric)
    requires
        1 <= runs.len() <= u64::MAX,
        forall|i: int| 0 <= i < runs.len() ==> runs[i] == m,
        consistent(m),
        scale_fits(m, runs.len() as int),
    ensures
        spec_rollup(runs) == m,
{
    let n = runs.len() as int;
    lemma_accum_identical(runs, m);
    let total = spec_scaled(m, n);
    // dividing the scaled accumulators by the run count restores the run
    vstd::arithmetic::div_mod::lemma_div_basics(m.txs_sent as int);
    vstd::arithmetic::div_mod::lemma_div_basics(m.txs_confirmed as int);
    vstd::arithmetic::div_mod::lemma_div_basics(m.txs_un_confirmed as int);
    vstd::arithmetic::div_mod::lemma_div_basics(m.total_sent_time_ms as int);
    vstd::arithmetic::div_mod::lemma_div_basics(m.total_transaction_bytes as int);
    vstd::arithmetic::div_mod::lemma_div_basics(m.total_confirmation_time_ms as int);
    vstd::arithmetic::div_mod::lemma_div_basics(m.total_gross_send_time_ms as int);
    vstd::arithmetic::div_mod::lemma_div_basics(m.send_tps as int);
    lemma_div_scaled(m.txs_sent as int, 1, n);
    lemma_div_scaled(m.txs_confirmed as int, 1, n);
    lemma_div_scaled(m.txs_un_confirmed as int, 1, n);
    lemma_div_scaled(m.total_sent_time_ms as int, 1, n);
    lemma_div_scaled(m.total_transaction_bytes as int, 1, n);
    lemma_div_scaled(m.total_confirmation_time_ms as int, 1, n);
    lemma_div_scaled(m.total_gross_send_time_ms as int, 1, n);
    if m.total_gross_send_time_ms == 0 {
        lemma_div_scaled(m.send_tps as int, 1, n);
    }
    assert(n * 1 == n);
    lemma_scale_nonneg(m, n);
    let divided = spec_div_metric(total, n as u64);
    assert(divided.txs_sent == m.txs_sent);
    assert(divided.total_gross_send_time_ms == m.total_gross_send_time_ms);
    if m.total_gross_send_time_ms > 0 {
        assert(m.send_tps == (m.txs_sent * 1000) as u64 / m.total_gross_send_time_ms);
    }
    assert(spec_finalize(divided) == m);
}

} // verus!

