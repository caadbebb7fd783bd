//! The invariant auditor: a background observer of the merged block stream
//! that records when each slot was first seen at each commitment level and
//! reports violations of the commitment ladder, without ever stopping the
//! stream.
use vstd::prelude::*;
use crate::Commitment;
use crate::Slot;

verus! {

/// A cleanup pass runs after this many observed blocks.
pub const CLEANUP_EVERY_SLOTS: u64 = 500;

/// A cleanup pass drops records this many slots behind the block that
/// triggered it.
pub const CLEANUP_KEEP_BEHIND: u64 = 200;

/// When each commitment level of one slot was first seen (wall clock,
/// milliseconds).
#[derive(Clone, Copy, Debug, PartialEq, Eq, Structural)]
pub struct SlotSeen {
    pub slot: Slot,
    pub processed_at: Option<u64>,
    pub confirmed_at: Option<u64>,
    pub finalized_at: Option<u64>,
}

/// What one observation revealed. Every flag reports a violation of the
/// commitment ladder, except `skipped` and `cleaned_up`.
#[derive(Clone, Copy, Debug, PartialEq, Eq, Structural)]
pub struct AuditReport {
    /// The block was below the cleanup watermark and was ignored.
    pub skipped: bool,
    /// This commitment level was already seen for this slot.
    pub duplicate_level: bool,
    /// Confirmed arrived with no processed observation for the slot.
    pub confirmed_without_processed: bool,
    /// Confirmed arrived after finalized for the slot.
    pub confirmed_after_finalized: bool,
    /// Processed arrived after confirmed for the slot.
    pub processed_after_confirmed: bool,
    /// Processed arrived after finalized for the slot.
    pub processed_after_finalized: bool,
    /// Finalized arrived with no processed observation for the slot.
    pub finalized_without_processed: bool,
    /// Finalized arrived with no confirmed observation for the slot.
    pub finalized_without_confirmed: bool,
    /// This observation triggered a cleanup pass.
    pub cleaned_up: bool,
}

/// A report with nothing to say.
pub open spec fn empty_report() -> AuditReport {
    AuditReport {
        skipped: false,
        duplicate_level: false,
        confirmed_without_processed: false,
        confirmed_after_finalized: false,
        processed_after_confirmed: false,
        processed_after_finalized: false,
        finalized_without_processed: false,
        finalized_without_confirmed: false,
        cleaned_up: false,
    }
}

/// Index of the first record for this slot, or -1.
pub open spec fn find_slot_record(s: Seq<SlotSeen>, slot: Slot) -> int
    decreases s.len(),
{
    if s.len() == 0 {
        -1
    } else if s[0].slot == slot {
        0
    } else if find_slot_record(s.drop_first(), slot) == -1 {
        -1
    } else {
        find_slot_record(s.drop_first(), slot) + 1
    }
}

/// The record for this slot, before the observation; a fresh one when none
/// exists.
pub open spec fn record_for(s: Seq<SlotSeen>, slot: Slot) -> SlotSeen {
    if find_slot_record(s, slot) >= 0 {
        s[find_slot_record(s, slot)]
    } else {
        SlotSeen { slot, processed_at: None, confirmed_at: None, finalized_at: None }
    }
}

/// The record with this level's first-seen timestamp stamped in.
pub open spec fn stamp_level(r: SlotSeen, level: Commitment, now_ms: u64) -> SlotSeen {
    match level {
        Commitment::Processed => SlotSeen { processed_at: Some(now_ms), ..r },
        Commitment::Confirmed => SlotSeen { confirmed_at: Some(now_ms), ..r },
        Commitment::Finalized => SlotSeen { finalized_at: Some(now_ms), ..r },
    }
}

/// Whether this level was already seen on the record.
pub open spec fn level_seen(r: SlotSeen, level: Commitment) -> bool {
    match level {
        Commitment::Processed => r.processed_at is Some,
        Commitment::Confirmed => r.confirmed_at is Some,
        Commitment::Finalized => r.finalized_at is Some,
    }
}

/// The ladder violations one observation reveals, judged against the
/// record as it stood before the observation.
pub open spec fn judge(r: SlotSeen, level: Commitment) -> AuditReport {
    AuditReport {
        duplicate_level: level_seen(r, level),
        confirmed_without_processed: level == Commitment::Confirmed && r.processed_at is None,
        confirmed_after_finalized: level == Commitment::Confirmed && r.finalized_at is Some,
        processed_after_confirmed: level == Commitment::Processed && r.confirmed_at is Some,
        processed_after_finalized: level == Commitment::Processed && r.finalized_at is Some,
        finalized_without_processed: level == Commitment::Finalized && r.processed_at is None,
        finalized_without_confirmed: level == Commitment::Finalized && r.confirmed_at is None,
        ..empty_report()
    }
}

/// The records below the bound dropped, order kept.
pub open spec fn spec_retain(s: Seq<SlotSeen>, bound: Slot) -> Seq<SlotSeen>
    decreases s.len(),
{
    if s.len() == 0 {
        Seq::empty()
    } else {
        let rest = spec_retain(s.drop_last(), bound);
        if s.last().slot >= bound {
            rest.push(s.last())
        } else {
            rest
        }
    }
}

/// The observer's state.
pub ghost struct AuditorView {
    pub cleanup_before_slot: Slot,
    pub slots_since_last_cleanup: u64,
    pub records: Seq<SlotSeen>,
}

/// The records after the observation: the slot's record stamped in place,
/// or appended when the slot is new.
pub open spec fn spec_observe_records(s: Seq<SlotSeen>, slot: Slot, level: Commitment, now_ms: u64)
    -> Seq<SlotSeen> {
    if find_slot_record(s, slot) >= 0 {
        s.update(find_slot_record(s, slot), stamp_level(record_for(s, slot), level, now_ms))
    } else {
        s.push(stamp_level(record_for(s, slot), level, now_ms))
    }
}

/// One observation: ignore blocks below the watermark; otherwise stamp the
/// level, judge the ladder, and every `CLEANUP_EVERY_SLOTS` observations
/// advance the watermark to `CLEANUP_KEEP_BEHIND` slots behind the
/// triggering block and drop every record behind it.
pub open spec fn spec_observe(a: AuditorView, slot: Slot, level: Commitment, now_ms: u64) -> (
    AuditorView,
    AuditReport,
) {
    if slot < a.cleanup_before_slot {
        (a, AuditReport { skipped: true, ..empty_report() })
    } else {
        let recs = spec_observe_records(a.records, slot, level, now_ms);
        let report = judge(record_for(a.records, slot), level);
        if a.slots_since_last_cleanup < CLEANUP_EVERY_SLOTS {
            (
                AuditorView {
                    records: recs,
                    slots_since_last_cleanup: (a.slots_since_last_cleanup + 1) as u64,
                    ..a
                },
                report,
            )
        } else {
            (
                AuditorView {
                    records: spec_retain(recs, spec_cleanup_point(slot)),
                    slots_since_last_cleanup: 0,
                    cleanup_before_slot: spec_cleanup_point(slot),
                },
                AuditReport { cleaned_up: true, ..report },
            )
        }
    }
}

/// Where a cleanup triggered by this block drops records:
/// `CLEANUP_KEEP_BEHIND` slots behind it.
pub open spec fn spec_cleanup_point(slot: Slot) -> Slot {
    if slot > CLEANUP_KEEP_BEHIND {
        (slot - CLEANUP_KEEP_BEHIND) as Slot
    } else {
        0
    }
}

/// Watches the merged stream and reports commitment-ladder violations.
pub struct ConfirmationAuditor {
    cleanup_before_slot: Slot,
    slots_since_last_cleanup: u64,
    records: Vec<SlotSeen>,
}

impl View for ConfirmationAuditor {
    type V = AuditorView;

    closed spec fn view(&self) -> AuditorView {
        AuditorView {
            cleanup_before_slot: self.cleanup_before_slot,
            slots_since_last_cleanup: self.slots_since_last_cleanup,
            records: self.records@,
        }
    }
}

impl ConfirmationAuditor {
    /// A fresh auditor that has seen nothing.
    pub fn new() -> (r: ConfirmationAuditor)
        ensures
            r@ == (AuditorView {
                cleanup_before_slot: 0,
                slots_since_last_cleanup: 0,
                records: Seq::<SlotSeen>::empty(),
            }),
    {
        let r = ConfirmationAuditor {
            cleanup_before_slot: 0,
            slots_since_last_cleanup: 0,
            records: Vec::new(),
        };
        proof {
            assert(r@.records =~= Seq::<SlotSeen>::empty());
        }
        r
    }

    /// Record one block of the merged stream and report what it revealed.
    pub fn observe(&mut self, slot: Slot, level: Commitment, now_ms: u64) -> (r: AuditReport)
        ensures
            (final(self)@, r) == spec_observe(old(self)@, slot, level, now_ms),
    {
        if slot < self.cleanup_before_slot {
            return AuditReport { skipped: true, ..empty_report_exec() };
        }
        let ghost pre = self@.records;

        // Find or create the slot's record, stamp the level, and judge the
        // ladder against the record as it stood.
        let n = self.records.len();
        let mut idx: usize = 0;
        let mut found = false;
        while idx < n && !found
            invariant
                self == old(self),
                n == self.records.len(),
                pre == self@.records,
                0 <= idx <= n,
                found ==> idx < n && pre[idx as int].slot == slot,
                forall|j: int| 0 <= j < idx ==> pre[j].slot != slot,
            decreases n - idx + (if found { 0int } else { 1int }),
        {
            if self.records[idx].slot == slot {
                found = true;
            } else {
                idx = idx + 1;
            }
        }
        let before: SlotSeen = if found {
            proof {
                lemma_find_slot_record_at(pre, slot, idx as int);
            }
            self.records[idx]
        } else {
            proof {
                lemma_find_slot_record_absent(pre, slot);
            }
            SlotSeen { slot, processed_at: None, confirmed_at: None, finalized_at: None }
        };
        assert(before == record_for(pre, slot));
        let stamped = match level {
            Commitment::Processed => SlotSeen { processed_at: Some(now_ms), ..before },
            Commitment::Confirmed => SlotSeen { confirmed_at: Some(now_ms), ..before },
            Commitment::Finalized => SlotSeen { finalized_at: Some(now_ms), ..before },
        };
        assert(stamped == stamp_level(record_for(pre, slot), level, now_ms));
        if found {
            self.records.set(idx, stamped);
            proof {
                assert(self@.records =~= pre.update(idx as int, stamped));
            }
        } else {
            self.records.push(stamped);
            proof {
                assert(self@.records =~= pre.push(stamped));
            }
        }
        let report = AuditReport {
            duplicate_level: match level {
                Commitment::Processed => before.processed_at.is_some(),
                Commitment::Confirmed => before.confirmed_at.is_some(),
                Commitment::Finalized => before.finalized_at.is_some(),
            },
            confirmed_without_processed: matches!(level, Commitment::Confirmed)
                && before.processed_at.is_none(),
            confirmed_after_finalized: matches!(level, Commitment::Confirmed)
                && before.finalized_at.is_some(),
            processed_after_confirmed: matches!(level, Commitment::Processed)
                && before.confirmed_at.is_some(),
            processed_after_finalized: matches!(level, Commitment::Processed)
                && before.finalized_at.is_some(),
            finalized_without_processed: matches!(level, Commitment::Finalized)
                && before.processed_at.is_none(),
            finalized_without_confirmed: matches!(level, Commitment::Finalized)
                && before.confirmed_at.is_none(),
            ..empty_report_exec()
        };
        assert(report == judge(record_for(pre, slot), level));

        // Periodic cleanup, against the watermark as it stood.
        if self.slots_since_last_cleanup < CLEANUP_EVERY_SLOTS {
            self.slots_since_last_cleanup = self.slots_since_last_cleanup + 1;
            report
        } else {
            let bound = if slot > CLEANUP_KEEP_BEHIND {
                slot - CLEANUP_KEEP_BEHIND
            } else {
                0
            };
            assert(bound == spec_cleanup_point(slot));
            let ghost mid = self@.records;
            let mut kept: Vec<SlotSeen> = Vec::new();
            let mut j: usize = 0;
            let m = self.records.len();
            while j < m
                invariant
                    m == self.records.len(),
                    mid == self@.records,
                    0 <= j <= m,
                    kept@ == spec_retain(mid.take(j as int), bound),
                decreases m - j,
            {
                proof {
                    assert(mid.take(j + 1).drop_last() =~= mid.take(j as int));
                    assert(mid.take(j + 1).last() == mid[j as int]);
                }
                if self.records[j].slot >= bound {
                    kept.push(self.records[j]);
                }
                j = j + 1;
            }
            proof {
                assert(mid.take(m as int) =~= mid);
            }
            self.records = kept;
            self.slots_since_last_cleanup = 0;
            self.cleanup_before_slot = bound;
            AuditReport { cleaned_up: true, ..report }
        }
    }
}

/// A report with nothing to say (executable twin of `empty_report`).
fn empty_report_exec() -> (r: AuditReport)
    ensures
        r == empty_report(),
{
    AuditReport {
        skipped: false,
        duplicate_level: false,
        confirmed_without_processed: false,
        confirmed_after_finalized: false,
        processed_after_confirmed: false,
        processed_after_finalized: false,
        finalized_without_processed: false,
        finalized_without_confirmed: false,
        cleaned_up: false,
    }
}

/// A match at index `i`, with none earlier, is what `find_slot_record`
/// finds.
pub proof fn lemma_find_slot_record_at(s: Seq<SlotSeen>, slot: Slot, i: int)
    requires
        0 <= i < s.len(),
        s[i].slot == slot,
        forall|j: int| 0 <= j < i ==> s[j].slot != slot,
    ensures
        find_slot_record(s, slot) == i,
    decreases s.len(),
{
    if i > 0 {
        assert(s.drop_first()[i - 1] == s[i]);
        assert(forall|j: int| 0 <= j < i - 1 ==> s.drop_first()[j] == s[j + 1]);
        lemma_find_slot_record_at(s.drop_first(), slot, i - 1);
    }
}

/// A slot occurring nowhere has no record.
pub proof fn lemma_find_slot_record_absent(s: Seq<SlotSeen>, slot: Slot)
    requires
        forall|j: int| 0 <= j < s.len() ==> s[j].slot != slot,
    ensures
        find_slot_record(s, slot) == -1,
    decreases s.len(),
{
    if s.len() > 0 {
        assert(forall|j: int| 0 <= j < s.len() - 1 ==> s.drop_first()[j] == s[j + 1]);
        lemma_find_slot_record_absent(s.drop_first(), slot);
    }
}

/// What one observation reported for the slot-ordering check.
#[derive(Clone, Copy, Debug, PartialEq, Eq, Structural)]
pub struct ListenReport {
    /// The block's commitment was not the watched one; nothing was checked.
    pub ignored: bool,
    /// Whether the block's parent slot is the previous highest slot;
    /// absent for the first block.
    pub parent_matches: Option<bool>,
    /// The block's slot advanced past the previous highest slot.
    pub monotonic: bool,
}

/// Watches one commitment level of the stream for slot ordering and
/// parent linkage.
pub struct ListenAuditor {
    watched: Commitment,
    last_highest_slot: Slot,
}

impl ListenAuditor {
    /// The commitment level this auditor watches.
    pub closed spec fn spec_watched(self) -> Commitment {
        self.watched
    }

    /// The highest slot seen so far (0 before any).
    pub closed spec fn spec_last_highest(self) -> Slot {
        self.last_highest_slot
    }

    pub fn new(watched: Commitment) -> (r: ListenAuditor)
        ensures
            r.spec_watched() == watched,
            r.spec_last_highest() == 0,
    {
        ListenAuditor { watched, last_highest_slot: 0 }
    }

    /// Check one block: blocks of other commitments are ignored; otherwise
    /// report parent linkage and slot monotonicity and advance the
    /// watermark.
    pub fn observe(&mut self, slot: Slot, parent_slot: Slot, commitment: Commitment) -> (r:
        ListenReport)
        ensures
            final(self).spec_watched() == old(self).spec_watched(),
            commitment != old(self).spec_watched() ==> {
                &&& r == (ListenReport { ignored: true, parent_matches: None, monotonic: false })
                &&& *final(self) == *old(self)
            },
            commitment == old(self).spec_watched() ==> {
                &&& r.ignored == false
                &&& r.parent_matches == (if old(self).spec_last_highest() == 0 {
                    None
                } else {
                    Some(parent_slot == old(self).spec_last_highest())
                })
                &&& r.monotonic == (slot > old(self).spec_last_highest())
                &&& final(self).spec_last_highest() == (if slot > old(self).spec_last_highest() {
                    slot
                } else {
                    old(self).spec_last_highest()
                })
            },
    {
        if !(commitment.at_least(self.watched) && self.watched.at_least(commitment)) {
            return ListenReport { ignored: true, parent_matches: None, monotonic: false };
        }
        let parent_matches = if self.last_highest_slot == 0 {
            None
        } else {
            Some(parent_slot == self.last_highest_slot)
        };
        let monotonic = slot > self.last_highest_slot;
        if monotonic {
            self.last_highest_slot = slot;
        }
        ListenReport { ignored: false, parent_matches, monotonic }
    }
}

} // verus!
