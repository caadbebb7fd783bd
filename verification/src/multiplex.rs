//! Fastest-wins merging of redundant upstream block streams: per-commitment
//! deduplication and slot monotonicity, and the cross-level dedup gate used
//! when merging polling and streaming endpoints.
use vstd::prelude::*;
use crate::Commitment;
use crate::Slot;

verus! {

/// The cross-level dedup gate remembers at most this many `(slot, level)`
/// pairs; the oldest pair leaves when one more arrives.
pub const DEDUP_CACHE_PAIRS: usize = 1024;

/// Every element is strictly below its successors.
pub open spec fn strictly_increasing(t: Seq<Slot>) -> bool {
    forall|i: int, j: int| 0 <= i < j < t.len() ==> t[i] < t[j]
}

/// How often the slot occurs in the trace.
pub open spec fn count_slot(t: Seq<Slot>, s: Slot) -> nat
    decreases t.len(),
{
    if t.len() == 0 {
        0
    } else {
        count_slot(t.drop_last(), s) + (if t.last() == s { 1nat } else { 0nat })
    }
}

/// A slot that occurs nowhere is counted zero times.
pub proof fn lemma_count_slot_zero(t: Seq<Slot>, s: Slot)
    requires
        forall|i: int| 0 <= i < t.len() ==> t[i] != s,
    ensures
        count_slot(t, s) == 0,
    decreases t.len(),
{
    if t.len() > 0 {
        assert(forall|i: int| 0 <= i < t.len() - 1 ==> t.drop_last()[i] == t[i]);
        lemma_count_slot_zero(t.drop_last(), s);
    }
}

/// Emitted at most once: a strictly increasing trace repeats no slot.
pub proof fn lemma_emitted_at_most_once(t: Seq<Slot>, s: Slot)
    requires
        strictly_increasing(t),
    ensures
        count_slot(t, s) <= 1,
    decreases t.len(),
{
    if t.len() > 0 {
        assert(forall|i: int| 0 <= i < t.len() - 1 ==> t.drop_last()[i] == t[i]);
        if t.last() == s {
            assert(forall|i: int| 0 <= i < t.len() - 1 ==> #[trigger] t[i] < t[t.len() - 1]);
            lemma_count_slot_zero(t.drop_last(), s);
        } else {
            lemma_emitted_at_most_once(t.drop_last(), s);
        }
    }
}

/// Emitted in order: a strictly increasing trace is non-decreasing.
pub proof fn lemma_emitted_non_decreasing(t: Seq<Slot>)
    requires
        strictly_increasing(t),
    ensures
        forall|i: int, j: int| 0 <= i <= j < t.len() ==> t[i] <= t[j],
{
}

/// Deduplication law: whatever a multiplexer has emitted, no slot was
/// emitted twice on its commitment level's merged stream.
pub proof fn lemma_multiplexer_emits_once(m: FastestWinsMultiplexer, s: Slot)
    requires
        m.wf(),
    ensures
        count_slot(m.trace(), s) <= 1,
{
    lemma_emitted_at_most_once(m.trace(), s);
}

/// Ordering law: whatever a multiplexer has emitted, the slot sequence of
/// its commitment level's merged stream is non-decreasing in emission
/// order.
pub proof fn lemma_multiplexer_monotonic(m: FastestWinsMultiplexer)
    requires
        m.wf(),
    ensures
        forall|i: int, j: int|
            0 <= i <= j < m.trace().len() ==> m.trace()[i] <= m.trace()[j],
{
    lemma_emitted_non_decreasing(m.trace());
}

/// Merges the streams of one commitment level: for each slot the first
/// observation from any source wins, and late arrivals with a slot at or
/// below the last emission are suppressed.
pub struct FastestWinsMultiplexer {
    last_emitted_slot: Option<Slot>,
    trace: Ghost<Seq<Slot>>,
}

impl FastestWinsMultiplexer {
    /// The slots emitted so far, in emission order.
    pub closed spec fn trace(self) -> Seq<Slot> {
        self.trace@
    }

    /// The slot of the newest emission, if any.
    pub closed spec fn last_emitted(self) -> Option<Slot> {
        self.last_emitted_slot
    }

    /// The emitted trace is strictly increasing and ends at the remembered
    /// last emission.
    pub closed spec fn wf(self) -> bool {
        &&& strictly_increasing(self.trace@)
        &&& match self.last_emitted_slot {
            Some(last) => self.trace@.len() > 0 && self.trace@.last() == last,
            None => self.trace@.len() == 0,
        }
    }

    /// A fresh multiplexer that has emitted nothing.
    pub fn new() -> (r: FastestWinsMultiplexer)
        ensures
            r.wf(),
            r.trace() == Seq::<Slot>::empty(),
            r.last_emitted() is None,
    {
        FastestWinsMultiplexer { last_emitted_slot: None, trace: Ghost(Seq::empty()) }
    }

    /// Decide whether an observation of this slot is emitted or discarded.
    /// Exactly the observations that advance the slot sequence pass.
    pub fn offer(&mut self, slot: Slot) -> (emit: bool)
        requires
            old(self).wf(),
        ensures
            final(self).wf(),
            emit == (match old(self).last_emitted() {
                Some(last) => slot > last,
                None => true,
            }),
            final(self).trace() == (if emit {
                old(self).trace().push(slot)
            } else {
                old(self).trace()
            }),
            final(self).last_emitted() == (if emit {
                Some(slot)
            } else {
                old(self).last_emitted()
            }),
    {
        let emit = match self.last_emitted_slot {
            Some(last) => slot > last,
            None => true,
        };
        if emit {
            self.last_emitted_slot = Some(slot);
            proof {
                let t0 = self.trace@;
                self.trace@ = t0.push(slot);
                assert(forall|i: int| 0 <= i < t0.len() ==> self.trace@[i] == t0[i]);
            }
        }
        emit
    }
}

/// All sources going silent for longer than this many milliseconds is
/// worth a warning; the multiplexer never terminates on its own.
pub const STALL_THRESHOLD_MS: u64 = 30000;

/// Notices when every upstream source has gone silent for longer than the
/// stall threshold. Only a warning follows; the stream stays up.
pub struct StallMonitor {
    last_message_ms: u64,
    threshold_ms: u64,
}

impl StallMonitor {
    /// When the last upstream message arrived.
    pub closed spec fn spec_last_message_ms(self) -> u64 {
        self.last_message_ms
    }

    /// The configured stall threshold.
    pub closed spec fn spec_threshold_ms(self) -> u64 {
        self.threshold_ms
    }

    pub fn new(threshold_ms: u64, now_ms: u64) -> (r: StallMonitor)
        ensures
            r.spec_threshold_ms() == threshold_ms,
            r.spec_last_message_ms() == now_ms,
    {
        StallMonitor { last_message_ms: now_ms, threshold_ms }
    }

    /// A message arrived on some source.
    pub fn note_message(&mut self, now_ms: u64)
        ensures
            final(self).spec_threshold_ms() == old(self).spec_threshold_ms(),
            final(self).spec_last_message_ms() == now_ms,
    {
        self.last_message_ms = now_ms;
    }

    /// Whether the silence has exceeded the threshold.
    pub fn is_stalled(&self, now_ms: u64) -> (r: bool)
        ensures
            r == (now_ms > self.spec_last_message_ms() && now_ms - self.spec_last_message_ms()
                > self.spec_threshold_ms()),
    {
        now_ms > self.last_message_ms && now_ms - self.last_message_ms > self.threshold_ms
    }
}

/// Merged slot-progress notifications: an update passes only while it
/// advances the processed or the estimated slot.
pub struct SlotGate {
    processed_slot: Slot,
    estimated_slot: Slot,
}

impl SlotGate {
    /// The highest processed slot forwarded so far (0 before any).
    pub closed spec fn spec_processed(self) -> Slot {
        self.processed_slot
    }

    /// The highest estimated processed slot forwarded so far (0 before any).
    pub closed spec fn spec_estimated(self) -> Slot {
        self.estimated_slot
    }

    pub fn new() -> (r: SlotGate)
        ensures
            r.spec_processed() == 0,
            r.spec_estimated() == 0,
    {
        SlotGate { processed_slot: 0, estimated_slot: 0 }
    }

    /// Forward a notification iff it advances either watermark; on forward
    /// both watermarks move to the notification's values.
    pub fn offer(&mut self, processed_slot: Slot, estimated_slot: Slot) -> (emit: bool)
        ensures
            emit == (processed_slot > old(self).spec_processed()
                || estimated_slot > old(self).spec_estimated()),
            final(self).spec_processed() == (if emit {
                processed_slot
            } else {
                old(self).spec_processed()
            }),
            final(self).spec_estimated() == (if emit {
                estimated_slot
            } else {
                old(self).spec_estimated()
            }),
    {
        if processed_slot > self.processed_slot || estimated_slot > self.estimated_slot {
            self.processed_slot = processed_slot;
            self.estimated_slot = estimated_slot;
            true
        } else {
            false
        }
    }
}

/// One remembered block observation: a slot at one commitment level.
#[derive(Clone, Copy, Debug, PartialEq, Eq, Structural)]
pub struct SlotLevel {
    pub slot: Slot,
    pub level: Commitment,
}

/// Lexicographic order on `(slot, level)`: the pair evicted first is the
/// least one.
pub open spec fn pair_le(a: SlotLevel, b: SlotLevel) -> bool {
    a.slot < b.slot || (a.slot == b.slot && a.level.rank() <= b.level.rank())
}

/// The pair occurs in the cache.
pub open spec fn contains_pair(s: Seq<SlotLevel>, p: SlotLevel) -> bool {
    exists|i: int| 0 <= i < s.len() && s[i] == p
}

/// The element at index `k` is a least element.
pub open spec fn is_min_pair(s: Seq<SlotLevel>, k: int) -> bool {
    &&& 0 <= k < s.len()
    &&& forall|j: int| 0 <= j < s.len() ==> pair_le(s[k], #[trigger] s[j])
}

/// Cross-level block dedup and ordering gate: a block passes only while
/// its `(slot, level)` pair is not remembered and its slot has not fallen
/// behind its level's last emission, so the forwarded stream is
/// slot-non-decreasing within each commitment level. The pair memory holds
/// the last `DEDUP_CACHE_PAIRS` pairs and drops the least pair first.
pub struct BlockDedup {
    seen: Vec<SlotLevel>,
    processed_mark: Slot,
    confirmed_mark: Slot,
    finalized_mark: Slot,
    emitted: Ghost<Seq<SlotLevel>>,
}

impl View for BlockDedup {
    type V = Seq<SlotLevel>;

    closed spec fn view(&self) -> Seq<SlotLevel> {
        self.seen@
    }
}

impl BlockDedup {
    /// The forwarded pairs so far, in emission order.
    pub closed spec fn emitted(self) -> Seq<SlotLevel> {
        self.emitted@
    }

    /// The slot of this level's newest emission (0 before any).
    pub closed spec fn spec_mark(self, level: Commitment) -> Slot {
        match level {
            Commitment::Processed => self.processed_mark,
            Commitment::Confirmed => self.confirmed_mark,
            Commitment::Finalized => self.finalized_mark,
        }
    }

    /// The memory is bounded, no emission is ahead of its level's
    /// watermark, and within each level the emitted slots never decrease.
    pub closed spec fn wf(self) -> bool {
        &&& self@.len() <= DEDUP_CACHE_PAIRS
        &&& forall|k: int|
            0 <= k < self.emitted@.len() ==> (#[trigger] self.emitted@[k]).slot <= self.spec_mark(
                self.emitted@[k].level,
            )
        &&& forall|i: int, j: int|
            0 <= i <= j < self.emitted@.len() && (#[trigger] self.emitted@[i]).level == (
            #[trigger] self.emitted@[j]).level ==> self.emitted@[i].slot <= self.emitted@[j].slot
    }

    pub fn new() -> (r: BlockDedup)
        ensures
            r.wf(),
            r@ == Seq::<SlotLevel>::empty(),
            r.emitted() == Seq::<SlotLevel>::empty(),
            forall|l: Commitment| #![auto] r.spec_mark(l) == 0,
    {
        let r = BlockDedup {
            seen: Vec::new(),
            processed_mark: 0,
            confirmed_mark: 0,
            finalized_mark: 0,
            emitted: Ghost(Seq::empty()),
        };
        proof {
            assert(r@ =~= Seq::<SlotLevel>::empty());
        }
        r
    }

    /// Forward a block iff its `(slot, level)` pair is not remembered and
    /// its slot has not fallen behind the level's last emission; on forward
    /// the pair is remembered and the level's watermark moves to the slot,
    /// evicting the least remembered pair when the memory is full.
    pub fn offer(&mut self, slot: Slot, level: Commitment) -> (emit: bool)
        requires
            old(self).wf(),
        ensures
            final(self).wf(),
            emit == (slot >= old(self).spec_mark(level) && !contains_pair(
                old(self)@,
                SlotLevel { slot, level },
            )),
            final(self).emitted() == (if emit {
                old(self).emitted().push(SlotLevel { slot, level })
            } else {
                old(self).emitted()
            }),
            forall|l: Commitment| #![auto]
                final(self).spec_mark(l) == (if emit && l == level {
                    slot
                } else {
                    old(self).spec_mark(l)
                }),
            !emit ==> final(self)@ == old(self)@,
            emit && old(self)@.len() < DEDUP_CACHE_PAIRS ==> final(self)@ == old(self)@.push(
                SlotLevel { slot, level },
            ),
            emit && old(self)@.len() >= DEDUP_CACHE_PAIRS ==> exists|k: int|
                #[trigger] is_min_pair(old(self)@.push(SlotLevel { slot, level }), k)
                    && final(self)@ == old(self)@.push(SlotLevel { slot, level }).remove(k),
    {
        let p = SlotLevel { slot, level };
        let mark = match level {
            Commitment::Processed => self.processed_mark,
            Commitment::Confirmed => self.confirmed_mark,
            Commitment::Finalized => self.finalized_mark,
        };
        if slot < mark {
            return false;
        }
        let n = self.seen.len();
        let mut i: usize = 0;
        while i < n
            invariant
                self == old(self),
                old(self).wf(),
                p == (SlotLevel { slot, level }),
                n == self.seen.len(),
                0 <= i <= n,
                forall|j: int| 0 <= j < i ==> self.seen@[j] != p,
            decreases n - i,
        {
            if self.seen[i] == p {
                assert(old(self)@[i as int] == p);
                return false;
            }
            i = i + 1;
        }
        assert(!contains_pair(self@, p));
        match level {
            Commitment::Processed => {
                self.processed_mark = slot;
            },
            Commitment::Confirmed => {
                self.confirmed_mark = slot;
            },
            Commitment::Finalized => {
                self.finalized_mark = slot;
            },
        }
        proof {
            let pre = old(self).emitted@;
            self.emitted@ = pre.push(p);
            assert(forall|k: int| 0 <= k < pre.len() ==> self.emitted@[k] == pre[k]);
            assert(self.emitted@.last() == p);
            assert forall|k: int| 0 <= k < self.emitted@.len()
                implies (#[trigger] self.emitted@[k]).slot <= self.spec_mark(
                self.emitted@[k].level,
            ) by {
                if k < pre.len() {
                    assert(pre[k].slot <= old(self).spec_mark(pre[k].level));
                }
            }
            assert forall|a: int, b: int|
                0 <= a <= b < self.emitted@.len() && (#[trigger] self.emitted@[a]).level == (
                #[trigger] self.emitted@[b]).level
                implies self.emitted@[a].slot <= self.emitted@[b].slot by {
                if b == pre.len() as int && a < b {
                    assert(pre[a].slot <= old(self).spec_mark(pre[a].level));
                }
            }
        }
        let full = self.seen.len() >= DEDUP_CACHE_PAIRS;
        self.seen.push(p);
        let ghost grown = self.seen@;
        if full {
            // evict the least pair
            let m = self.seen.len();
            let mut min_idx: usize = 0;
            let mut j: usize = 1;
            while j < m
                invariant
                    m == self.seen.len(),
                    self.seen@ == grown,
                    0 <= min_idx < j <= m,
                    forall|l: int| 0 <= l < j ==> pair_le(grown[min_idx as int], #[trigger] grown[l]),
                decreases m - j,
            {
                let a = self.seen[j];
                let b = self.seen[min_idx];
                if a.slot < b.slot || (a.slot == b.slot && !a.level.at_least(b.level)) {
                    assert(pair_le(grown[j as int], grown[min_idx as int]));
                    min_idx = j;
                } else {
                    assert(pair_le(grown[min_idx as int], grown[j as int]));
                }
                j = j + 1;
            }
            assert(is_min_pair(grown, min_idx as int));
            self.seen.remove(min_idx);
            assert(self@ == grown.remove(min_idx as int));
        }
        true
    }
}

/// Ordering law for the endpoint-merge gate: within each commitment level,
/// the slots it has forwarded are non-decreasing in emission order.
pub proof fn lemma_block_gate_monotonic(d: BlockDedup, level: Commitment)
    requires
        d.wf(),
    ensures
        forall|i: int, j: int|
            0 <= i <= j < d.emitted().len() && (#[trigger] d.emitted()[i]).level == level && (
            #[trigger] d.emitted()[j]).level == level ==> d.emitted()[i].slot
                <= d.emitted()[j].slot,
{
}

} // verus!
