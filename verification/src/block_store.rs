//! Sliding-window store of recent block metadata: the blockhash validity
//! oracle and the latest-block queries of the gateway.
use vstd::prelude::*;
use crate::Commitment;
use crate::Slot;
use crate::block::BlockInfoView;
use crate::block::BlockInformation;

verus! {

/// A blockhash stays valid while its block height is within this many
/// heights of the latest observed block height at the requested commitment.
pub const MAX_RECENT_BLOCKHASHES: u64 = 150;

/// Entries older than this many slots behind the newest finalized slot may
/// be evicted on insertion.
pub const RETENTION_SLOTS: u64 = 512;

/// No two entries share a slot.
pub open spec fn unique_slots(s: Seq<BlockInfoView>) -> bool {
    forall|i: int, j: int|
        0 <= i < s.len() && 0 <= j < s.len() && i != j ==> s[i].slot != s[j].slot
}

/// Some entry carries this slot.
pub open spec fn contains_slot(s: Seq<BlockInfoView>, slot: Slot) -> bool {
    exists|i: int| 0 <= i < s.len() && s[i].slot == slot
}

/// The entry at this slot, if any (the last match; under `unique_slots`
/// there is at most one).
pub open spec fn lookup_slot(s: Seq<BlockInfoView>, slot: Slot) -> Option<BlockInfoView>
    decreases s.len(),
{
    if s.len() == 0 {
        None
    } else if s.last().slot == slot {
        Some(s.last())
    } else {
        lookup_slot(s.drop_last(), slot)
    }
}

/// The entry with this blockhash, if any (the last match; a store whose
/// blockhashes are distinct has at most one).
pub open spec fn lookup_hash(s: Seq<BlockInfoView>, hash: Seq<char>) -> Option<BlockInfoView>
    decreases s.len(),
{
    if s.len() == 0 {
        None
    } else if s.last().blockhash == hash {
        Some(s.last())
    } else {
        lookup_hash(s.drop_last(), hash)
    }
}

/// The newest entry at or above the given commitment, if any.
pub open spec fn latest_at(s: Seq<BlockInfoView>, c: Commitment) -> Option<BlockInfoView>
    decreases s.len(),
{
    if s.len() == 0 {
        None
    } else {
        let rest = latest_at(s.drop_last(), c);
        if s.last().commitment.rank() >= c.rank() {
            match rest {
                Some(v) => if s.last().slot > v.slot { Some(s.last()) } else { Some(v) },
                None => Some(s.last()),
            }
        } else {
            rest
        }
    }
}

/// What `lookup_slot` returns says exactly whether and where the slot occurs.
pub proof fn lemma_lookup_slot_props(s: Seq<BlockInfoView>, slot: Slot)
    ensures
        match lookup_slot(s, slot) {
            None => !contains_slot(s, slot),
            Some(v) => v.slot == slot && exists|i: int| 0 <= i < s.len() && s[i] == v,
        },
    decreases s.len(),
{
    if s.len() > 0 {
        if s.last().slot == slot {
        } else {
            lemma_lookup_slot_props(s.drop_last(), slot);
            match lookup_slot(s.drop_last(), slot) {
                None => {
                    assert(forall|i: int| 0 <= i < s.len() - 1 ==> s[i] == s.drop_last()[i]);
                },
                Some(v) => {
                    let i = choose|i: int| 0 <= i < s.drop_last().len() && s.drop_last()[i] == v;
                    assert(s[i] == v);
                },
            }
        }
    }
}

/// Under `unique_slots`, an entry present at index `i` is what `lookup_slot`
/// finds for its slot.
pub proof fn lemma_lookup_slot_present(s: Seq<BlockInfoView>, i: int)
    requires
        unique_slots(s),
        0 <= i < s.len(),
    ensures
        lookup_slot(s, s[i].slot) == Some(s[i]),
    decreases s.len(),
{
    if i == s.len() - 1 {
    } else {
        assert(s.last().slot != s[i].slot);
        assert(unique_slots(s.drop_last()));
        assert(s.drop_last()[i] == s[i]);
        lemma_lookup_slot_present(s.drop_last(), i);
    }
}

/// What `lookup_hash` returns says exactly whether and where the hash occurs.
pub proof fn lemma_lookup_hash_props(s: Seq<BlockInfoView>, hash: Seq<char>)
    ensures
        match lookup_hash(s, hash) {
            None => forall|i: int| 0 <= i < s.len() ==> s[i].blockhash != hash,
            Some(v) => v.blockhash == hash && exists|i: int| 0 <= i < s.len() && s[i] == v,
        },
    decreases s.len(),
{
    if s.len() > 0 {
        if s.last().blockhash == hash {
        } else {
            lemma_lookup_hash_props(s.drop_last(), hash);
            match lookup_hash(s.drop_last(), hash) {
                None => {
                    assert(forall|i: int| 0 <= i < s.len() - 1 ==> s[i] == s.drop_last()[i]);
                },
                Some(v) => {
                    let i = choose|i: int| 0 <= i < s.drop_last().len() && s.drop_last()[i] == v;
                    assert(s[i] == v);
                },
            }
        }
    }
}

/// If exactly the entry at index `i` carries the hash, `lookup_hash` finds it.
pub proof fn lemma_lookup_hash_unique(s: Seq<BlockInfoView>, i: int)
    requires
        0 <= i < s.len(),
        forall|j: int| 0 <= j < s.len() && s[j].blockhash == s[i].blockhash ==> j == i,
    ensures
        lookup_hash(s, s[i].blockhash) == Some(s[i]),
    decreases s.len(),
{
    if i == s.len() - 1 {
    } else {
        assert(s.last() == s[s.len() - 1]);
        assert(s.last().blockhash != s[i].blockhash);
        assert(s.drop_last()[i] == s[i]);
        assert(forall|j: int|
            0 <= j < s.drop_last().len() && s.drop_last()[j].blockhash == s.drop_last()[i].blockhash
                ==> s.drop_last()[j] == s[j] && j == i);
        lemma_lookup_hash_unique(s.drop_last(), i);
    }
}

/// What `latest_at` returns is a maximal-slot entry at or above the level.
pub proof fn lemma_latest_at_props(s: Seq<BlockInfoView>, c: Commitment)
    ensures
        match latest_at(s, c) {
            None => forall|i: int| 0 <= i < s.len() ==> s[i].commitment.rank() < c.rank(),
            Some(v) => {
                &&& v.commitment.rank() >= c.rank()
                &&& exists|i: int| 0 <= i < s.len() && s[i] == v
                &&& forall|i: int|
                    0 <= i < s.len() && s[i].commitment.rank() >= c.rank() ==> s[i].slot <= v.slot
            },
        },
    decreases s.len(),
{
    if s.len() > 0 {
        lemma_latest_at_props(s.drop_last(), c);
        assert(forall|i: int| 0 <= i < s.len() - 1 ==> s[i] == s.drop_last()[i]);
        match latest_at(s.drop_last(), c) {
            None => {},
            Some(v) => {
                let i = choose|i: int| 0 <= i < s.drop_last().len() && s.drop_last()[i] == v;
                assert(s[i] == v);
            },
        }
    }
}

/// If a slot does not occur, `lookup_slot` yields `None`.
pub proof fn lemma_lookup_slot_absent(s: Seq<BlockInfoView>, slot: Slot)
    requires
        !contains_slot(s, slot),
    ensures
        lookup_slot(s, slot) is None,
{
    lemma_lookup_slot_props(s, slot);
    match lookup_slot(s, slot) {
        None => {},
        Some(v) => {
            let i = choose|i: int| 0 <= i < s.len() && s[i] == v;
            assert(s[i].slot == slot);
        },
    }
}

/// Replacing the entry at index `i` by one with the same slot changes
/// `lookup_slot` only at that slot.
pub proof fn lemma_lookup_update(s: Seq<BlockInfoView>, i: int, b: BlockInfoView)
    requires
        unique_slots(s),
        0 <= i < s.len(),
        s[i].slot == b.slot,
    ensures
        unique_slots(s.update(i, b)),
        forall|t: Slot| #![auto]
            lookup_slot(s.update(i, b), t)
                == (if t == b.slot { Some(b) } else { lookup_slot(s, t) }),
{
    let u = s.update(i, b);
    assert(forall|j: int| 0 <= j < s.len() ==> u[j].slot == s[j].slot);
    assert(unique_slots(u));
    assert forall|t: Slot| #![auto]
        lookup_slot(u, t) == (if t == b.slot { Some(b) } else { lookup_slot(s, t) }) by {
        if t == b.slot {
            lemma_lookup_slot_present(u, i);
        } else {
            lemma_lookup_slot_props(s, t);
            match lookup_slot(s, t) {
                Some(v) => {
                    let j = choose|j: int| 0 <= j < s.len() && s[j] == v;
                    assert(j != i);
                    assert(u[j] == v);
                    lemma_lookup_slot_present(u, j);
                },
                None => {
                    assert(!contains_slot(u, t));
                    lemma_lookup_slot_absent(u, t);
                },
            }
        }
    }
}

/// Appending an entry whose slot is fresh changes `lookup_slot` only at
/// that slot.
pub proof fn lemma_lookup_push(s: Seq<BlockInfoView>, b: BlockInfoView)
    requires
        unique_slots(s),
        !contains_slot(s, b.slot),
    ensures
        unique_slots(s.push(b)),
        forall|t: Slot| #![auto]
            lookup_slot(s.push(b), t)
                == (if t == b.slot { Some(b) } else { lookup_slot(s, t) }),
{
    let u = s.push(b);
    assert(u.last() == b);
    assert(u.drop_last() =~= s);
    assert(forall|j: int| 0 <= j < s.len() ==> u[j] == s[j]);
    assert(unique_slots(u));
}

/// The commitment-upgrade rule of `BlockStore::add`: an already-present
/// record at the same slot survives unless the new record is stronger.
pub open spec fn merged_entry(pre: Seq<BlockInfoView>, b: BlockInfoView) -> BlockInfoView {
    match lookup_slot(pre, b.slot) {
        Some(e) => if b.commitment.rank() > e.commitment.rank() { b } else { e },
        None => b,
    }
}

/// What `lookup_slot` yields after `BlockStore::add(b)` with eviction
/// bound `bound`, for any slot.
pub open spec fn add_lookup(pre: Seq<BlockInfoView>, b: BlockInfoView, bound: Slot, slot: Slot)
    -> Option<BlockInfoView> {
    if slot < bound {
        None
    } else if slot == b.slot {
        Some(merged_entry(pre, b))
    } else {
        lookup_slot(pre, slot)
    }
}

/// Sliding-window map of recent block metadata, indexed by slot and by
/// blockhash.
pub struct BlockStore {
    entries: Vec<BlockInformation>,
    finalized_tip: Slot,
}

impl View for BlockStore {
    type V = Seq<BlockInfoView>;

    closed spec fn view(&self) -> Seq<BlockInfoView> {
        self.entries.deep_view()
    }
}

impl BlockStore {
    /// The newest finalized slot seen so far (0 before any).
    pub closed spec fn spec_finalized_tip(self) -> Slot {
        self.finalized_tip
    }

    /// Slots below this bound are outside the retention window.
    pub open spec fn evict_bound(self) -> Slot {
        if self.spec_finalized_tip() > RETENTION_SLOTS {
            (self.spec_finalized_tip() - RETENTION_SLOTS) as Slot
        } else {
            0
        }
    }

    /// Well-formed: slots are unique and every entry is inside the window.
    pub open spec fn wf(self) -> bool {
        &&& unique_slots(self@)
        &&& forall|i: int| 0 <= i < self@.len() ==> self@[i].slot >= self.evict_bound()
    }

    /// An empty store.
    pub fn new() -> (r: BlockStore)
        ensures
            r.wf(),
            r@ == Seq::<BlockInfoView>::empty(),
            r.spec_finalized_tip() == 0,
    {
        let r = BlockStore { entries: Vec::new(), finalized_tip: 0 };
        proof {
            assert(r@ =~= Seq::<BlockInfoView>::empty());
        }
        r
    }


    /// Insert or update. A slot already present keeps the record with the
    /// higher commitment; insertion may evict entries older than
    /// `RETENTION_SLOTS` behind the newest finalized slot.
    pub fn add(&mut self, b: BlockInformation)
        requires
            old(self).wf(),
        ensures
            final(self).wf(),
            final(self).spec_finalized_tip() == (
                if b@.commitment == Commitment::Finalized && b@.slot > old(self).spec_finalized_tip() {
                    b@.slot
                } else {
                    old(self).spec_finalized_tip()
                }),
            forall|slot: Slot| #![auto]
                lookup_slot(final(self)@, slot)
                    == add_lookup(old(self)@, b@, final(self).evict_bound(), slot),
    {
        let ghost pre = self@;
        let ghost bview = b@;

        // Advance the finalized tip.
        if matches!(b.commitment, Commitment::Finalized) && b.slot > self.finalized_tip {
            self.finalized_tip = b.slot;
        }
        let bound: Slot = if self.finalized_tip > RETENTION_SLOTS {
            self.finalized_tip - RETENTION_SLOTS
        } else {
            0
        };
        assert(bound == self.evict_bound());

        // Insert the record, or upgrade the one already at its slot.
        match position_of_slot(&self.entries, b.slot) {
            Some(i) => {
                proof {
                    lemma_lookup_slot_present(pre, i as int);
                }
                if !self.entries[i].commitment.at_least(b.commitment) {
                    // strictly stronger commitment: replace
                    self.entries.set(i, b);
                    proof {
                        assert(self@ =~= pre.update(i as int, bview));
                        lemma_lookup_update(pre, i as int, bview);
                        assert(merged_entry(pre, bview) == bview);
                    }
                } else {
                    proof {
                        assert(self@ == pre);
                        assert(merged_entry(pre, bview) == pre[i as int]);
                    }
                }
            },
            None => {
                proof {
                    lemma_lookup_slot_absent(pre, bview.slot);
                    lemma_lookup_push(pre, bview);
                }
                self.entries.push(b);
                proof {
                    assert(self@ =~= pre.push(bview));
                    assert(merged_entry(pre, bview) == bview);
                }
            },
        }
        let ghost mid = self@;
        assert(unique_slots(mid));
        assert(forall|t: Slot| #![auto]
            lookup_slot(mid, t)
                == (if t == bview.slot {
                    Some(merged_entry(pre, bview))
                } else {
                    lookup_slot(pre, t)
                }));

        // Evict everything behind the retention window.
        let kept = retain_window(&self.entries, bound);
        self.entries = kept;
        assert(forall|t: Slot| #![auto]
            lookup_slot(self@, t) == (if t >= bound { lookup_slot(mid, t) } else { None }));
    }

    /// The entry at this slot, if any.
    pub fn get_block_info_by_slot(&self, slot: Slot) -> (r: Option<BlockInformation>)
        requires
            self.wf(),
        ensures
            match r {
                Some(b) => lookup_slot(self@, slot) == Some(b@),
                None => lookup_slot(self@, slot) is None,
            },
    {
        match position_of_slot(&self.entries, slot) {
            Some(i) => {
                proof {
                    lemma_lookup_slot_present(self@, i as int);
                }
                Some(self.entries[i].duplicate())
            },
            None => {
                proof {
                    lemma_lookup_slot_absent(self@, slot);
                }
                None
            },
        }
    }

    /// The newest entry with this blockhash, if any.
    pub fn get_block_info_by_blockhash(&self, hash: &String) -> (r: Option<BlockInformation>)
        requires
            self.wf(),
        ensures
            match r {
                Some(b) => lookup_hash(self@, hash@) == Some(b@),
                None => lookup_hash(self@, hash@) is None,
            },
    {
        let ghost s = self@;
        let n = self.entries.len();
        let mut i: usize = n;
        while i > 0
            invariant
                n == self.entries.len(),
                s == self@,
                0 <= i <= n,
                forall|j: int| i <= j < n ==> s[j].blockhash != hash@,
            decreases i,
        {
            i = i - 1;
            if self.entries[i].blockhash == *hash {
                proof {
                    lemma_lookup_hash_at_max(s, i as int);
                }
                return Some(self.entries[i].duplicate());
            }
        }
        proof {
            lemma_lookup_hash_props(s, hash@);
            if lookup_hash(s, hash@) is Some {
                let v = lookup_hash(s, hash@).unwrap();
                let k = choose|k: int| 0 <= k < s.len() && s[k] == v;
                assert(s[k].blockhash == hash@);
            }
        }
        None
    }

    /// The newest entry at or above the requested commitment, if any.
    pub fn get_latest_block(&self, c: Commitment) -> (r: Option<BlockInformation>)
        requires
            self.wf(),
        ensures
            match r {
                Some(b) => latest_at(self@, c) == Some(b@),
                None => latest_at(self@, c) is None,
            },
    {
        let ghost s = self@;
        let n = self.entries.len();
        let mut best: Option<usize> = None;
        let mut i: usize = 0;
        while i < n
            invariant
                n == self.entries.len(),
                s == self@,
                0 <= i <= n,
                match best {
                    Some(k) => k < i && latest_at(s.take(i as int), c) == Some(s[k as int]),
                    None => latest_at(s.take(i as int), c) is None,
                },
            decreases n - i,
        {
            proof {
                assert(s.take(i + 1).drop_last() =~= s.take(i as int));
                assert(s.take(i + 1).last() == s[i as int]);
            }
            if self.entries[i].commitment.at_least(c) {
                match best {
                    Some(k) => {
                        if self.entries[i].slot > self.entries[k].slot {
                            best = Some(i);
                        }
                    },
                    None => {
                        best = Some(i);
                    },
                }
            }
            i = i + 1;
        }
        proof {
            assert(s.take(n as int) =~= s);
        }
        match best {
            Some(k) => Some(self.entries[k].duplicate()),
            None => None,
        }
    }

    /// Whether the blockhash is still usable as a recency nonce at the
    /// requested commitment, with the slot at which the check was taken.
    /// Valid iff the store holds the hash at commitment at least `c` and
    /// its block height is within `MAX_RECENT_BLOCKHASHES` of the latest
    /// block height at `c`; `(false, 0)` while nothing is at `c` yet.
    pub fn is_blockhash_valid(&self, hash: &String, c: Commitment) -> (r: (bool, Slot))
        requires
            self.wf(),
        ensures
            match latest_at(self@, c) {
                None => r.0 == false && r.1 == 0,
                Some(lv) => r.1 == lv.slot && r.0 == hash_valid_in(self@, hash@, c, lv.block_height),
            },
    {
        let latest = self.get_latest_block(c);
        let lb = match latest {
            Some(lb) => lb,
            None => {
                return (false, 0);
            },
        };
        let ghost s = self@;
        let ghost lv = latest_at(s, c).unwrap();
        let n = self.entries.len();
        let mut i: usize = 0;
        while i < n
            invariant
                n == self.entries.len(),
                s == self@,
                lb@ == lv,
                latest_at(s, c) == Some(lv),
                0 <= i <= n,
                forall|j: int| #![auto] 0 <= j < i ==> !hash_match(s[j], hash@, c, lv.block_height),
            decreases n - i,
        {
            if self.entries[i].blockhash == *hash
                && self.entries[i].commitment.at_least(c)
                && (lb.block_height <= self.entries[i].block_height
                    || lb.block_height - self.entries[i].block_height <= MAX_RECENT_BLOCKHASHES) {
                assert(hash_match(s[i as int], hash@, c, lv.block_height));
                return (true, lb.slot);
            }
            i = i + 1;
        }
        (false, lb.slot)
    }
}

/// One entry passing the blockhash validity test.
pub open spec fn hash_match(e: BlockInfoView, h: Seq<char>, c: Commitment, latest_height: u64) -> bool {
    e.blockhash == h && e.commitment.rank() >= c.rank()
        && latest_height - e.block_height <= MAX_RECENT_BLOCKHASHES
}

/// The store holds the hash at commitment at least `c`, within the recency
/// window below the latest height at `c`.
pub open spec fn hash_valid_in(s: Seq<BlockInfoView>, h: Seq<char>, c: Commitment, latest_height: u64) -> bool {
    exists|i: int| 0 <= i < s.len() && #[trigger] hash_match(s[i], h, c, latest_height)
}

/// If entry `i` carries the hash and no later entry does, `lookup_hash`
/// finds entry `i`.
pub proof fn lemma_lookup_hash_at_max(s: Seq<BlockInfoView>, i: int)
    requires
        0 <= i < s.len(),
        forall|j: int| i < j < s.len() ==> s[j].blockhash != s[i].blockhash,
    ensures
        lookup_hash(s, s[i].blockhash) == Some(s[i]),
    decreases s.len(),
{
    if i == s.len() - 1 {
    } else {
        assert(s.last().blockhash != s[i].blockhash);
        assert(s.drop_last()[i] == s[i]);
        assert(forall|j: int| i < j < s.drop_last().len() ==> s.drop_last()[j] == s[j]);
        lemma_lookup_hash_at_max(s.drop_last(), i);
    }
}

/// Round trip: a record handed to `add` stays retrievable by its slot, and
/// by its blockhash while no other slot carries that hash, until it leaves
/// the retention window.
pub proof fn lemma_add_round_trip(
    pre: Seq<BlockInfoView>,
    post: Seq<BlockInfoView>,
    b: BlockInfoView,
    bound: Slot,
)
    requires
        unique_slots(pre),
        unique_slots(post),
        forall|t: Slot| #![auto] lookup_slot(post, t) == add_lookup(pre, b, bound, t),
        b.slot >= bound,
        match lookup_slot(pre, b.slot) {
            Some(e) => e.blockhash == b.blockhash,
            None => true,
        },
    ensures
        lookup_slot(post, b.slot) is Some,
        lookup_slot(post, b.slot).unwrap().slot == b.slot,
        lookup_slot(post, b.slot).unwrap().blockhash == b.blockhash,
        (forall|i: int| #![auto]
            0 <= i < pre.len() && pre[i].blockhash == b.blockhash ==> pre[i].slot == b.slot)
            ==> lookup_hash(post, b.blockhash) == lookup_slot(post, b.slot),
{
    lemma_lookup_slot_props(pre, b.slot);
    assert(lookup_slot(post, b.slot) == Some(merged_entry(pre, b)));
    let m = merged_entry(pre, b);
    assert(m.slot == b.slot && m.blockhash == b.blockhash);
    if forall|i: int| #![auto]
        0 <= i < pre.len() && pre[i].blockhash == b.blockhash ==> pre[i].slot == b.slot {
        lemma_lookup_slot_props(post, b.slot);
        let k = choose|k: int| 0 <= k < post.len() && post[k] == m;
        assert forall|j: int| 0 <= j < post.len() && post[j].blockhash == post[k].blockhash
            implies j == k by {
            let e = post[j];
            lemma_lookup_slot_present(post, j);
            if e.slot == b.slot {
                assert(post[j].slot == post[k].slot);
            } else {
                assert(lookup_slot(post, e.slot) == lookup_slot(pre, e.slot));
                lemma_lookup_slot_props(pre, e.slot);
                let i = choose|i: int| 0 <= i < pre.len() && pre[i] == e;
                assert(pre[i].blockhash == b.blockhash && pre[i].slot != b.slot);
            }
        }
        lemma_lookup_hash_unique(post, k);
    }
}

/// Index of the entry carrying this slot, if any.
fn position_of_slot(v: &Vec<BlockInformation>, slot: Slot) -> (r: Option<usize>)
    ensures
        match r {
            Some(i) => i < v.deep_view().len() && v.deep_view()[i as int].slot == slot,
            None => !contains_slot(v.deep_view(), slot),
        },
{
    let n = v.len();
    let mut i: usize = 0;
    while i < n
        invariant
            n == v.len(),
            0 <= i <= n,
            forall|j: int| 0 <= j < i ==> v.deep_view()[j].slot != slot,
        decreases n - i,
    {
        if v[i].slot == slot {
            return Some(i);
        }
        i = i + 1;
    }
    None
}

/// Copy of the entries whose slot is inside the retention window.
fn retain_window(v: &Vec<BlockInformation>, bound: Slot) -> (r: Vec<BlockInformation>)
    requires
        unique_slots(v.deep_view()),
    ensures
        unique_slots(r.deep_view()),
        forall|k: int| 0 <= k < r.deep_view().len() ==> r.deep_view()[k].slot >= bound,
        forall|t: Slot| #![auto]
            lookup_slot(r.deep_view(), t)
                == (if t >= bound { lookup_slot(v.deep_view(), t) } else { None }),
{
    let ghost mid = v.deep_view();
    let mut kept: Vec<BlockInformation> = Vec::new();
    let mut j: usize = 0;
    let m = v.len();
    while j < m
        invariant
            m == v.len(),
            mid == v.deep_view(),
            unique_slots(mid),
            0 <= j <= m,
            forall|k: int| #![trigger kept.deep_view()[k]]
                0 <= k < kept.deep_view().len()
                    ==> exists|l: int| 0 <= l < j && kept.deep_view()[k] == #[trigger] mid[l],
            forall|l: int| #![trigger mid[l]]
                0 <= l < j && mid[l].slot >= bound
                    ==> exists|k: int|
                        0 <= k < kept.deep_view().len()
                            && #[trigger] kept.deep_view()[k] == mid[l],
            forall|k: int| 0 <= k < kept.deep_view().len() ==> kept.deep_view()[k].slot >= bound,
            unique_slots(kept.deep_view()),
        decreases m - j,
    {
        let ghost kpre = kept.deep_view();
        if v[j].slot >= bound {
            let e = v[j].duplicate();
            kept.push(e);
            proof {
                assert(kept.deep_view() =~= kpre.push(mid[j as int]));
                assert(kept.deep_view()[kept.deep_view().len() - 1] == mid[j as int]);
                assert forall|l: int|
                    0 <= l < j + 1 && #[trigger] mid[l].slot >= bound
                    implies exists|k: int|
                        0 <= k < kept.deep_view().len()
                            && #[trigger] kept.deep_view()[k] == mid[l] by {
                    if l == j {
                        assert(kept.deep_view()[kept.deep_view().len() - 1] == mid[l]);
                    } else {
                        let k = choose|k: int| 0 <= k < kpre.len() && #[trigger] kpre[k] == mid[l];
                        assert(kept.deep_view()[k] == mid[l]);
                    }
                }
                assert(unique_slots(kept.deep_view())) by {
                    assert forall|k: int| 0 <= k < kpre.len()
                        implies kpre[k].slot != mid[j as int].slot by {
                        let l = choose|l: int| 0 <= l < j && kpre[k] == mid[l];
                        assert(unique_slots(mid));
                        assert(mid[l].slot != mid[j as int].slot);
                    }
                }
            }
        }
        j = j + 1;
    }
    let ghost post = kept.deep_view();
    proof {
        assert forall|t: Slot| #![auto]
            lookup_slot(post, t) == (if t >= bound { lookup_slot(mid, t) } else { None }) by {
            lemma_lookup_slot_props(post, t);
            match lookup_slot(post, t) {
                Some(w) => {
                    let k = choose|k: int| 0 <= k < post.len() && post[k] == w;
                    let l = choose|l: int| 0 <= l < mid.len() && post[k] == #[trigger] mid[l];
                    assert(mid[l] == w && w.slot >= bound);
                    lemma_lookup_slot_present(mid, l);
                },
                None => {
                    if t >= bound {
                        lemma_lookup_slot_props(mid, t);
                        match lookup_slot(mid, t) {
                            Some(w) => {
                                let l = choose|l: int| 0 <= l < mid.len() && mid[l] == w;
                                assert(mid[l].slot == t && mid[l].slot >= bound);
                                let k = choose|k: int|
                                    0 <= k < post.len() && #[trigger] post[k] == mid[l];
                                lemma_lookup_slot_present(post, k);
                            },
                            None => {},
                        }
                    }
                },
            }
        }
    }
    kept
}

} // verus!
