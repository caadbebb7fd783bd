//! Transaction lifecycle tracking: each submitted signature moves through
//! queued, sent, landed, confirmed, finalized or expired, with timing
//! metrics, a bounded retry budget and absorbing terminal states.
use vstd::prelude::*;
use crate::Commitment;
use crate::Slot;

verus! {

/// Lifecycle state of one submitted transaction. `Finalized` and `Expired`
/// are absorbing.
#[derive(Clone, Copy, Debug, PartialEq, Eq, Structural)]
pub enum TxState {
    Queued,
    Sent,
    Landed(Slot),
    Confirmed(Slot),
    Finalized(Slot),
    Expired,
}

/// What the tracker can learn about a transaction.
#[derive(Clone, Copy, Debug, PartialEq, Eq, Structural)]
pub enum TxEvent {
    /// The forwarder accepted the raw bytes.
    Forwarded,
    /// The signature was seen inside the transaction list of the block at
    /// this slot, observed at this commitment level.
    SeenInBlock { slot: Slot, commitment: Commitment },
    /// A finalized block reached this block height.
    FinalizedTip { block_height: u64 },
}

/// The lifecycle step relation: where one event takes one state, given the
/// transaction's last valid block height.
pub open spec fn spec_tx_step(s: TxState, last_valid: u64, ev: TxEvent) -> TxState {
    match ev {
        TxEvent::Forwarded => match s {
            TxState::Queued => TxState::Sent,
            _ => s,
        },
        TxEvent::SeenInBlock { slot, commitment } => match s {
            TxState::Queued | TxState::Sent => match commitment {
                Commitment::Processed => TxState::Landed(slot),
                Commitment::Confirmed => TxState::Confirmed(slot),
                Commitment::Finalized => TxState::Finalized(slot),
            },
            TxState::Landed(l) => if slot == l {
                match commitment {
                    Commitment::Processed => TxState::Landed(l),
                    Commitment::Confirmed => TxState::Confirmed(l),
                    Commitment::Finalized => TxState::Finalized(l),
                }
            } else {
                TxState::Landed(l)
            },
            TxState::Confirmed(l) => if slot == l && commitment == Commitment::Finalized {
                TxState::Finalized(l)
            } else {
                TxState::Confirmed(l)
            },
            TxState::Finalized(l) => TxState::Finalized(l),
            TxState::Expired => TxState::Expired,
        },
        TxEvent::FinalizedTip { block_height } => match s {
            TxState::Queued | TxState::Sent => if block_height > last_valid {
                TxState::Expired
            } else {
                s
            },
            _ => s,
        },
    }
}

/// The state has reached `Confirmed` or `Finalized`.
pub open spec fn is_confirmed_or_beyond(s: TxState) -> bool {
    s is Confirmed || s is Finalized
}

/// Executable lifecycle step; exactly the step relation.
pub fn tx_step(s: TxState, last_valid: u64, ev: TxEvent) -> (r: TxState)
    ensures
        r == spec_tx_step(s, last_valid, ev),
{
    match ev {
        TxEvent::Forwarded => match s {
            TxState::Queued => TxState::Sent,
            _ => s,
        },
        TxEvent::SeenInBlock { slot, commitment } => match s {
            TxState::Queued | TxState::Sent => match commitment {
                Commitment::Processed => TxState::Landed(slot),
                Commitment::Confirmed => TxState::Confirmed(slot),
                Commitment::Finalized => TxState::Finalized(slot),
            },
            TxState::Landed(l) => if slot == l {
                match commitment {
                    Commitment::Processed => TxState::Landed(l),
                    Commitment::Confirmed => TxState::Confirmed(l),
                    Commitment::Finalized => TxState::Finalized(l),
                }
            } else {
                TxState::Landed(l)
            },
            TxState::Confirmed(l) => {
                if slot == l && matches!(commitment, Commitment::Finalized) {
                    TxState::Finalized(l)
                } else {
                    TxState::Confirmed(l)
                }
            },
            TxState::Finalized(l) => TxState::Finalized(l),
            TxState::Expired => TxState::Expired,
        },
        TxEvent::FinalizedTip { block_height } => match s {
            TxState::Queued | TxState::Sent => if block_height > last_valid {
                TxState::Expired
            } else {
                s
            },
            _ => s,
        },
    }
}

/// Once finalized, no event alters the state.
pub proof fn lemma_finalized_is_terminal(l: Slot, last_valid: u64, ev: TxEvent)
    ensures
        spec_tx_step(TxState::Finalized(l), last_valid, ev) == TxState::Finalized(l),
{
}

/// Once expired, no event alters the state.
pub proof fn lemma_expired_is_terminal(last_valid: u64, ev: TxEvent)
    ensures
        spec_tx_step(TxState::Expired, last_valid, ev) == TxState::Expired,
{
}

/// One tracked transaction.
pub struct TrackedTx {
    pub signature: String,
    pub last_valid_block_height: u64,
    pub max_retries: u16,
    pub retries_used: u16,
    pub sent_ts: u64,
    pub confirmed_ts: Option<u64>,
    pub state: TxState,
}

/// Spec-level image of a `TrackedTx`.
pub ghost struct TrackedTxView {
    pub signature: Seq<char>,
    pub last_valid_block_height: u64,
    pub max_retries: u16,
    pub retries_used: u16,
    pub sent_ts: u64,
    pub confirmed_ts: Option<u64>,
    pub state: TxState,
}

impl View for TrackedTx {
    type V = TrackedTxView;

    open spec fn view(&self) -> TrackedTxView {
        TrackedTxView {
            signature: self.signature@,
            last_valid_block_height: self.last_valid_block_height,
            max_retries: self.max_retries,
            retries_used: self.retries_used,
            sent_ts: self.sent_ts,
            confirmed_ts: self.confirmed_ts,
            state: self.state,
        }
    }
}

impl DeepView for TrackedTx {
    type V = TrackedTxView;

    open spec fn deep_view(&self) -> TrackedTxView {
        self.view()
    }
}

/// One event applied to one record: the state steps, and the confirmation
/// timestamp is taken the moment the record first reaches `Confirmed` or
/// `Finalized`.
pub open spec fn spec_record_step(r: TrackedTxView, ev: TxEvent, now_ms: u64) -> TrackedTxView {
    let next = spec_tx_step(r.state, r.last_valid_block_height, ev);
    TrackedTxView {
        confirmed_ts: if !is_confirmed_or_beyond(r.state) && is_confirmed_or_beyond(next) {
            Some(now_ms)
        } else {
            r.confirmed_ts
        },
        state: next,
        ..r
    }
}

/// A record that is finalized never changes again.
pub proof fn lemma_finalized_record_fixed(r: TrackedTxView, ev: TxEvent, now_ms: u64)
    requires
        r.state is Finalized,
    ensures
        spec_record_step(r, ev, now_ms) == r,
{
}

/// The status a client sees: present once the transaction landed, and
/// absent again once it expired.
#[derive(Clone, Copy, Debug, PartialEq, Eq, Structural)]
pub enum TxStatusLevel {
    Landed,
    Confirmed,
    Finalized,
}

/// Status reported for one lifecycle state.
pub open spec fn spec_status_of(s: TxState) -> Option<TxStatusLevel> {
    match s {
        TxState::Landed(_) => Some(TxStatusLevel::Landed),
        TxState::Confirmed(_) => Some(TxStatusLevel::Confirmed),
        TxState::Finalized(_) => Some(TxStatusLevel::Finalized),
        _ => None,
    }
}

/// The sequence holds a record with this signature.
pub open spec fn contains_signature(s: Seq<TrackedTxView>, sig: Seq<char>) -> bool {
    exists|i: int| 0 <= i < s.len() && s[i].signature == sig
}

/// The string occurs in the list.
pub open spec fn contains_str(s: Seq<Seq<char>>, x: Seq<char>) -> bool {
    exists|i: int| 0 <= i < s.len() && s[i] == x
}

/// No two records share a signature.
pub open spec fn unique_signatures(s: Seq<TrackedTxView>) -> bool {
    forall|i: int, j: int|
        0 <= i < s.len() && 0 <= j < s.len() && i != j ==> s[i].signature != s[j].signature
}

/// Records that agree on every signature stay unique together.
pub proof fn lemma_unique_signatures_preserved(pre: Seq<TrackedTxView>, post: Seq<TrackedTxView>)
    requires
        unique_signatures(pre),
        post.len() == pre.len(),
        forall|j: int| 0 <= j < post.len() ==> post[j].signature == pre[j].signature,
    ensures
        unique_signatures(post),
{
}

/// The signature table: every submitted transaction and its lifecycle.
pub struct TxTracker {
    txs: Vec<TrackedTx>,
}

impl View for TxTracker {
    type V = Seq<TrackedTxView>;

    closed spec fn view(&self) -> Seq<TrackedTxView> {
        self.txs.deep_view()
    }
}

impl TxTracker {
    /// Well-formed: one record per signature.
    pub open spec fn wf(self) -> bool {
        unique_signatures(self@)
    }

    /// An empty tracker.
    pub fn new() -> (r: TxTracker)
        ensures
            r.wf(),
            r@ == Seq::<TrackedTxView>::empty(),
    {
        let r = TxTracker { txs: Vec::new() };
        proof {
            assert(r@ =~= Seq::<TrackedTxView>::empty());
        }
        r
    }

    /// Start tracking a submission. A signature already tracked is left
    /// alone and the call reports it.
    pub fn register(
        &mut self,
        signature: String,
        last_valid_block_height: u64,
        max_retries: u16,
        now_ms: u64,
    ) -> (fresh: bool)
        requires
            old(self).wf(),
        ensures
            final(self).wf(),
            fresh == !contains_signature(old(self)@, signature@),
            fresh ==> final(self)@ == old(self)@.push(
                TrackedTxView {
                    signature: signature@,
                    last_valid_block_height,
                    max_retries,
                    retries_used: 0,
                    sent_ts: now_ms,
                    confirmed_ts: None,
                    state: TxState::Queued,
                },
            ),
            !fresh ==> final(self)@ == old(self)@,
    {
        let n = self.txs.len();
        let mut i: usize = 0;
        while i < n
            invariant
                self == old(self),
                old(self).wf(),
                n == self.txs.len(),
                0 <= i <= n,
                forall|j: int| 0 <= j < i ==> self@[j].signature != signature@,
            decreases n - i,
        {
            if self.txs[i].signature == signature {
                assert(old(self)@[i as int].signature == signature@);
                return false;
            }
            i = i + 1;
        }
        let ghost pre = self@;
        let entry = TrackedTx {
            signature,
            last_valid_block_height,
            max_retries,
            retries_used: 0,
            sent_ts: now_ms,
            confirmed_ts: None,
            state: TxState::Queued,
        };
        self.txs.push(entry);
        proof {
            assert(self@ =~= pre.push(
                TrackedTxView {
                    signature: signature@,
                    last_valid_block_height,
                    max_retries,
                    retries_used: 0,
                    sent_ts: now_ms,
                    confirmed_ts: None,
                    state: TxState::Queued,
                },
            ));
            assert(forall|k: int| 0 <= k < pre.len() ==> self@[k] == pre[k]);
            assert(self@.last().signature == signature@);
            assert(unique_signatures(self@));
        }
        true
    }

    /// Apply one event to every record whose signature is in the list
    /// (`Forwarded` and `FinalizedTip` callers pass the event with an empty
    /// or full selection through the dedicated methods below).
    fn step_matching(&mut self, sigs: &Vec<String>, ev: TxEvent, now_ms: u64)
        ensures
            final(self)@.len() == old(self)@.len(),
            forall|j: int| #![auto]
                0 <= j < old(self)@.len() ==> final(self)@[j] == (
                    if contains_str(sigs.deep_view(), old(self)@[j].signature) {
                        spec_record_step(old(self)@[j], ev, now_ms)
                    } else {
                        old(self)@[j]
                    }),
            forall|j: int| #![auto]
                0 <= j < old(self)@.len()
                    ==> final(self)@[j].signature == old(self)@[j].signature,
    {
        let ghost pre = self@;
        let n = self.txs.len();
        let mut i: usize = 0;
        while i < n
            invariant
                n == self.txs.len(),
                pre == old(self)@,
                pre.len() == n,
                self@.len() == n,
                0 <= i <= n,
                forall|j: int| i <= j < n ==> self@[j] == pre[j],
                forall|j: int| #![auto]
                    0 <= j < i ==> self@[j] == (
                        if contains_str(sigs.deep_view(), pre[j].signature) {
                            spec_record_step(pre[j], ev, now_ms)
                        } else {
                            pre[j]
                        }),
            decreases n - i,
        {
            if contains_string(sigs, &self.txs[i].signature) {
                let old_state = self.txs[i].state;
                let next = tx_step(old_state, self.txs[i].last_valid_block_height, ev);
                let was_confirmed = matches!(
                    old_state,
                    TxState::Confirmed(_) | TxState::Finalized(_),
                );
                let now_confirmed = matches!(next, TxState::Confirmed(_) | TxState::Finalized(_));
                let entry = TrackedTx {
                    signature: self.txs[i].signature.clone(),
                    last_valid_block_height: self.txs[i].last_valid_block_height,
                    max_retries: self.txs[i].max_retries,
                    retries_used: self.txs[i].retries_used,
                    sent_ts: self.txs[i].sent_ts,
                    confirmed_ts: if !was_confirmed && now_confirmed {
                        Some(now_ms)
                    } else {
                        self.txs[i].confirmed_ts
                    },
                    state: next,
                };
                let ghost before = self@;
                self.txs.set(i, entry);
                proof {
                    assert(self@ =~= before.update(i as int, spec_record_step(pre[i as int], ev, now_ms)));
                }
            }
            i = i + 1;
        }
    }

    /// The forwarder accepted this transaction's bytes: `Queued` becomes
    /// `Sent`; every other state is unchanged.
    pub fn mark_forwarded(&mut self, signature: &String, now_ms: u64)
        requires
            old(self).wf(),
        ensures
            final(self).wf(),
            final(self)@.len() == old(self)@.len(),
            forall|j: int| #![auto]
                0 <= j < old(self)@.len() ==> final(self)@[j] == (
                    if old(self)@[j].signature == signature@ {
                        spec_record_step(old(self)@[j], TxEvent::Forwarded, now_ms)
                    } else {
                        old(self)@[j]
                    }),
    {
        let mut sigs: Vec<String> = Vec::new();
        sigs.push(signature.clone());
        proof {
            assert(sigs.deep_view() =~= seq![signature@]);
        }
        self.step_matching(&sigs, TxEvent::Forwarded, now_ms);
        proof {
            lemma_unique_signatures_preserved(old(self)@, self@);
            assert forall|j: int| #![auto] 0 <= j < old(self)@.len()
                implies contains_str(sigs.deep_view(), old(self)@[j].signature)
                    == (old(self)@[j].signature == signature@) by {
                let s = sigs.deep_view();
                if old(self)@[j].signature == signature@ {
                    assert(s[0] == old(self)@[j].signature);
                }
                if contains_str(s, old(self)@[j].signature) {
                    let k = choose|k: int| 0 <= k < s.len() && s[k] == old(self)@[j].signature;
                    assert(k == 0);
                }
            }
        }
    }

    /// A block arrived on the merged stream: every tracked signature inside
    /// its transaction list takes the corresponding lifecycle step.
    pub fn process_block(
        &mut self,
        slot: Slot,
        commitment: Commitment,
        tx_signatures: &Vec<String>,
        now_ms: u64,
    )
        requires
            old(self).wf(),
        ensures
            final(self).wf(),
            final(self)@.len() == old(self)@.len(),
            forall|j: int| #![auto]
                0 <= j < old(self)@.len() ==> final(self)@[j] == (
                    if contains_str(tx_signatures.deep_view(), old(self)@[j].signature) {
                        spec_record_step(
                            old(self)@[j],
                            TxEvent::SeenInBlock { slot, commitment },
                            now_ms,
                        )
                    } else {
                        old(self)@[j]
                    }),
    {
        self.step_matching(tx_signatures, TxEvent::SeenInBlock { slot, commitment }, now_ms);
        proof {
            lemma_unique_signatures_preserved(old(self)@, self@);
        }
    }

    /// A finalized block reached this height: still-pending transactions
    /// whose validity window is surpassed expire.
    pub fn process_finalized_height(&mut self, block_height: u64, now_ms: u64)
        requires
            old(self).wf(),
        ensures
            final(self).wf(),
            final(self)@.len() == old(self)@.len(),
            forall|j: int| #![auto]
                0 <= j < old(self)@.len() ==> final(self)@[j] == spec_record_step(
                    old(self)@[j],
                    TxEvent::FinalizedTip { block_height },
                    now_ms,
                ),
    {
        let ghost pre = self@;
        let ev = TxEvent::FinalizedTip { block_height };
        let n = self.txs.len();
        let mut i: usize = 0;
        while i < n
            invariant
                n == self.txs.len(),
                pre == old(self)@,
                pre.len() == n,
                self@.len() == n,
                0 <= i <= n,
                ev == (TxEvent::FinalizedTip { block_height }),
                forall|j: int| i <= j < n ==> self@[j] == pre[j],
                forall|j: int| #![auto]
                    0 <= j < i ==> self@[j] == spec_record_step(pre[j], ev, now_ms),
            decreases n - i,
        {
            let old_state = self.txs[i].state;
            let next = tx_step(old_state, self.txs[i].last_valid_block_height, ev);
            let was_confirmed = matches!(old_state, TxState::Confirmed(_) | TxState::Finalized(_));
            let now_confirmed = matches!(next, TxState::Confirmed(_) | TxState::Finalized(_));
            let entry = TrackedTx {
                signature: self.txs[i].signature.clone(),
                last_valid_block_height: self.txs[i].last_valid_block_height,
                max_retries: self.txs[i].max_retries,
                retries_used: self.txs[i].retries_used,
                sent_ts: self.txs[i].sent_ts,
                confirmed_ts: if !was_confirmed && now_confirmed {
                    Some(now_ms)
                } else {
                    self.txs[i].confirmed_ts
                },
                state: next,
            };
            let ghost before = self@;
            self.txs.set(i, entry);
            proof {
                assert(self@ =~= before.update(i as int, spec_record_step(pre[i as int], ev, now_ms)));
            }
            i = i + 1;
        }
        proof {
            lemma_unique_signatures_preserved(old(self)@, self@);
        }
    }

    /// Spend one retry: permitted only while the transaction is `Sent` and
    /// the budget is not exhausted; never after it landed.
    pub fn take_retry(&mut self, signature: &String) -> (granted: bool)
        requires
            old(self).wf(),
        ensures
            final(self).wf(),
            final(self)@.len() == old(self)@.len(),
            granted == (exists|j: int|
                0 <= j < old(self)@.len() && #[trigger] old(self)@[j].signature == signature@
                    && old(self)@[j].state is Sent
                    && old(self)@[j].retries_used < old(self)@[j].max_retries),
            forall|j: int| #![auto]
                0 <= j < old(self)@.len() ==> final(self)@[j] == (
                    if granted && old(self)@[j].signature == signature@ {
                        TrackedTxView {
                            retries_used: (old(self)@[j].retries_used + 1) as u16,
                            ..old(self)@[j]
                        }
                    } else {
                        old(self)@[j]
                    }),
    {
        let ghost pre = self@;
        let n = self.txs.len();
        let mut i: usize = 0;
        while i < n
            invariant
                self == old(self),
                n == self.txs.len(),
                pre == old(self)@,
                unique_signatures(pre),
                0 <= i <= n,
                forall|j: int| #![auto]
                    0 <= j < i ==> !(pre[j].signature == signature@ && pre[j].state is Sent
                        && pre[j].retries_used < pre[j].max_retries),
            decreases n - i,
        {
            if self.txs[i].signature == *signature
                && matches!(self.txs[i].state, TxState::Sent)
                && self.txs[i].retries_used < self.txs[i].max_retries {
                let ghost before = self@;
                let entry = TrackedTx {
                    signature: self.txs[i].signature.clone(),
                    last_valid_block_height: self.txs[i].last_valid_block_height,
                    max_retries: self.txs[i].max_retries,
                    retries_used: self.txs[i].retries_used + 1,
                    sent_ts: self.txs[i].sent_ts,
                    confirmed_ts: self.txs[i].confirmed_ts,
                    state: self.txs[i].state,
                };
                self.txs.set(i, entry);
                proof {
                    assert(self@ =~= before.update(
                        i as int,
                        TrackedTxView { retries_used: (pre[i as int].retries_used + 1) as u16, ..pre[i as int] },
                    ));
                    assert(pre[i as int].signature == signature@);
                    assert(unique_signatures(pre));
                    assert forall|j: int|
                        0 <= j < pre.len() && j != i
                        implies #[trigger] pre[j].signature != signature@ by {
                        assert(pre[j].signature != pre[i as int].signature);
                    }
                    lemma_unique_signatures_preserved(pre, self@);
                }
                return true;
            }
            i = i + 1;
        }
        false
    }

    /// The status of one signature: absent while unknown, queued, sent or
    /// expired; the reached level once landed.
    pub fn get_status(&self, signature: &String) -> (r: Option<TxStatusLevel>)
        ensures
            match status_lookup(self@, signature@) {
                Some(st) => r == spec_status_of(st),
                None => r is None,
            },
    {
        let n = self.txs.len();
        let mut i: usize = 0;
        while i < n
            invariant
                n == self.txs.len(),
                0 <= i <= n,
                forall|j: int| 0 <= j < i ==> self@[j].signature != signature@,
            decreases n - i,
        {
            if self.txs[i].signature == *signature {
                proof {
                    lemma_status_lookup_at(self@, signature@, i as int);
                }
                return match self.txs[i].state {
                    TxState::Landed(_) => Some(TxStatusLevel::Landed),
                    TxState::Confirmed(_) => Some(TxStatusLevel::Confirmed),
                    TxState::Finalized(_) => Some(TxStatusLevel::Finalized),
                    _ => None,
                };
            }
            i = i + 1;
        }
        proof {
            lemma_status_lookup_absent(self@, signature@);
        }
        None
    }
}

/// The state recorded for the first record carrying this signature.
pub open spec fn status_lookup(s: Seq<TrackedTxView>, sig: Seq<char>) -> Option<TxState>
    decreases s.len(),
{
    if s.len() == 0 {
        None
    } else if s[0].signature == sig {
        Some(s[0].state)
    } else {
        status_lookup(s.drop_first(), sig)
    }
}

/// A signature occurring first at index `i` is the one `status_lookup`
/// reports.
pub proof fn lemma_status_lookup_at(s: Seq<TrackedTxView>, sig: Seq<char>, i: int)
    requires
        0 <= i < s.len(),
        s[i].signature == sig,
        forall|j: int| 0 <= j < i ==> s[j].signature != sig,
    ensures
        status_lookup(s, sig) == Some(s[i].state),
    decreases s.len(),
{
    if i == 0 {
    } else {
        assert(s.drop_first()[i - 1] == s[i]);
        assert(forall|j: int| 0 <= j < i - 1 ==> s.drop_first()[j] == s[j + 1]);
        lemma_status_lookup_at(s.drop_first(), sig, i - 1);
    }
}

/// A signature occurring nowhere yields no status.
pub proof fn lemma_status_lookup_absent(s: Seq<TrackedTxView>, sig: Seq<char>)
    requires
        forall|j: int| 0 <= j < s.len() ==> s[j].signature != sig,
    ensures
        status_lookup(s, sig) is None,
    decreases s.len(),
{
    if s.len() > 0 {
        assert(forall|j: int| 0 <= j < s.len() - 1 ==> s.drop_first()[j] == s[j + 1]);
        lemma_status_lookup_absent(s.drop_first(), sig);
    }
}

/// Whether the list holds this string.
fn contains_string(v: &Vec<String>, x: &String) -> (r: bool)
    ensures
        r == contains_str(v.deep_view(), x@),
{
    let n = v.len();
    let mut i: usize = 0;
    while i < n
        invariant
            n == v.len(),
            0 <= i <= n,
            forall|j: int| 0 <= j < i ==> v.deep_view()[j] != x@,
        decreases n - i,
    {
        if v[i] == *x {
            assert(v.deep_view()[i as int] == x@);
            return true;
        }
        i = i + 1;
    }
    false
}

} // verus!
