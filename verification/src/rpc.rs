//! The gateway's read-side RPC surface and its ingest glue: one cache of
//! recent block metadata and tracked signatures, fed by the merged block
//! stream, answering the recency and status queries.
use vstd::prelude::*;
use crate::Commitment;
use crate::Slot;
use crate::block::BlockInfoView;
use crate::block::BlockInformation;
use crate::block::ProducedBlock;
use crate::block::TransactionInfoView;
use crate::block_store::BlockStore;
use crate::block_store::MAX_RECENT_BLOCKHASHES;
use crate::block_store::add_lookup;
use crate::block_store::hash_valid_in;
use crate::block_store::latest_at;
use crate::block_store::lookup_slot;
use crate::encoding::BinaryEncoding;
use crate::encoding::PreparedTransaction;
use crate::encoding::SendTxError;
use crate::encoding::base58_of;
use crate::encoding::prepare_transaction;
use crate::encoding::spec_decoded;
use crate::encoding::spec_first_signature;
use crate::encoding::spec_size_limit;
use crate::tracker::TrackedTxView;
use crate::tracker::TxEvent;
use crate::tracker::TxStatusLevel;
use crate::tracker::TxState;
use crate::tracker::TxTracker;
use crate::tracker::contains_signature;
use crate::tracker::contains_str;
use crate::tracker::spec_record_step;
use crate::tracker::spec_status_of;
use crate::tracker::status_lookup;
use vstd::string::StringSliceAdditionalSpecFns;

verus! {

/// The error kinds a request can come back with.
#[derive(Clone, Copy, Debug, PartialEq, Eq, Structural)]
pub enum RpcErrorKind {
    InvalidInput,
    NotFound,
    RateLimited,
    Internal,
}

/// A latest-blockhash answer: the context slot, the hash, and the last
/// block height at which a transaction built on it is still accepted.
pub struct RpcBlockhash {
    pub slot: Slot,
    pub blockhash: String,
    pub last_valid_block_height: u64,
}

/// The shared in-memory cache every handler reads.
pub struct DataCache {
    pub block_store: BlockStore,
    pub txs: TxTracker,
}

impl DataCache {
    /// Both halves of the cache are well-formed.
    pub open spec fn wf(self) -> bool {
        &&& self.block_store.wf()
        &&& self.txs.wf()
    }

    /// An empty cache.
    pub fn new() -> (r: DataCache)
        ensures
            r.wf(),
            r.block_store@ == Seq::<BlockInfoView>::empty(),
            r.txs@ == Seq::<TrackedTxView>::empty(),
    {
        DataCache { block_store: BlockStore::new(), txs: TxTracker::new() }
    }
}

/// What one block does to one tracked transaction: a lifecycle step for a
/// signature inside the block, then the expiry check when the block is
/// finalized.
pub open spec fn spec_ingest_tx(
    r: TrackedTxView,
    slot: Slot,
    commitment: Commitment,
    block_height: u64,
    in_block: bool,
    now_ms: u64,
) -> TrackedTxView {
    let r1 = if in_block {
        spec_record_step(r, TxEvent::SeenInBlock { slot, commitment }, now_ms)
    } else {
        r
    };
    if commitment == Commitment::Finalized {
        spec_record_step(r1, TxEvent::FinalizedTip { block_height }, now_ms)
    } else {
        r1
    }
}

/// The signatures of the block's transaction list, in block order.
pub fn signatures_of(block: &ProducedBlock) -> (r: Vec<String>)
    ensures
        r.deep_view() == block@.transactions.map_values(
            |t: TransactionInfoView| t.signature,
        ),
{
    let n = block.transactions.len();
    let mut r: Vec<String> = Vec::new();
    let mut i: usize = 0;
    while i < n
        invariant
            n == block.transactions.len(),
            0 <= i <= n,
            r.deep_view() =~= block@.transactions.take(i as int).map_values(
                |t: TransactionInfoView| t.signature,
            ),
        decreases n - i,
    {
        let ghost pre = r.deep_view();
        r.push(block.transactions[i].signature.clone());
        proof {
            let s = block@.transactions;
            let f = |t: TransactionInfoView| t.signature;
            assert(r.deep_view() =~= pre.push(s[i as int].signature));
            let t1 = s.take(i + 1).map_values(f);
            assert forall|k: int| 0 <= k < i + 1 implies t1[k] == r.deep_view()[k] by {
                assert(t1[k] == f(s.take(i + 1)[k]));
                assert(s.take(i + 1)[k] == s[k]);
                assert(f(s[k]) == s[k].signature);
                if k < i {
                    assert(pre[k] == s.take(i as int).map_values(f)[k]);
                    assert(s.take(i as int).map_values(f)[k] == f(s.take(i as int)[k]));
                    assert(s.take(i as int)[k] == s[k]);
                }
            }
            assert(r.deep_view() =~= t1);
        }
        i = i + 1;
    }
    proof {
        assert(block@.transactions.take(n as int) =~= block@.transactions);
    }
    r
}

/// The context slot of a batch of per-account answers: the highest slot
/// any single answer carried, 0 for an empty batch.
pub fn max_context_slot(slots: &Vec<Slot>) -> (r: Slot)
    ensures
        forall|i: int| 0 <= i < slots@.len() ==> slots@[i] <= r,
        r == 0 || exists|i: int| 0 <= i < slots@.len() && slots@[i] == r,
{
    let n = slots.len();
    let mut best: u64 = 0;
    let mut i: usize = 0;
    while i < n
        invariant
            n == slots.len(),
            0 <= i <= n,
            forall|j: int| 0 <= j < i ==> slots@[j] <= best,
            best == 0 || exists|j: int| 0 <= j < i && slots@[j] == best,
        decreases n - i,
    {
        if slots[i] > best {
            best = slots[i];
        }
        i = i + 1;
    }
    best
}

/// The bridge between clients and the chain: answers read queries from
/// the cache and prepares submissions for the forwarder.
pub struct LiteBridge {
    pub data_cache: DataCache,
}

impl LiteBridge {
    pub open spec fn wf(self) -> bool {
        self.data_cache.wf()
    }

    pub fn new(data_cache: DataCache) -> (r: LiteBridge)
        ensures
            r.data_cache == data_cache,
    {
        LiteBridge { data_cache }
    }

    /// Feed one block of the merged stream into the cache: the store
    /// learns its metadata, every tracked signature inside it takes its
    /// lifecycle step, and a finalized block expires what it outlives.
    pub fn ingest_block(&mut self, block: &ProducedBlock, now_ms: u64)
        requires
            old(self).wf(),
        ensures
            final(self).wf(),
            final(self).data_cache.block_store.spec_finalized_tip() == (
                if block@.commitment == Commitment::Finalized && block@.slot > old(
                    self,
                ).data_cache.block_store.spec_finalized_tip() {
                    block@.slot
                } else {
                    old(self).data_cache.block_store.spec_finalized_tip()
                }),
            forall|s: Slot| #![auto]
                lookup_slot(final(self).data_cache.block_store@, s) == add_lookup(
                    old(self).data_cache.block_store@,
                    BlockInfoView {
                        slot: block@.slot,
                        block_height: block@.block_height,
                        blockhash: block@.blockhash,
                        block_time: block@.block_time,
                        previous_blockhash: block@.previous_blockhash,
                        commitment: block@.commitment,
                    },
                    final(self).data_cache.block_store.evict_bound(),
                    s,
                ),
            final(self).data_cache.txs@.len() == old(self).data_cache.txs@.len(),
            forall|j: int| #![auto]
                0 <= j < old(self).data_cache.txs@.len() ==> final(self).data_cache.txs@[j]
                    == spec_ingest_tx(
                    old(self).data_cache.txs@[j],
                    block@.slot,
                    block@.commitment,
                    block@.block_height,
                    contains_str(
                        block@.transactions.map_values(|t: TransactionInfoView| t.signature),
                        old(self).data_cache.txs@[j].signature,
                    ),
                    now_ms,
                ),
    {
        let info = BlockInformation::from_produced(block);
        self.data_cache.block_store.add(info);
        let sigs = signatures_of(block);
        self.data_cache.txs.process_block(block.slot, block.commitment, &sigs, now_ms);
        if matches!(block.commitment, Commitment::Finalized) {
            self.data_cache.txs.process_finalized_height(block.block_height, now_ms);
        }
    }

    /// The slot of the newest cached block at the commitment, if any.
    pub fn get_slot(&self, commitment: Commitment) -> (r: Option<Slot>)
        requires
            self.wf(),
        ensures
            match latest_at(self.data_cache.block_store@, commitment) {
                Some(lv) => r == Some(lv.slot),
                None => r is None,
            },
    {
        match self.data_cache.block_store.get_latest_block(commitment) {
            Some(b) => Some(b.slot),
            None => None,
        }
    }

    /// The block height of the newest cached block at the commitment, if
    /// any.
    pub fn get_block_height(&self, commitment: Commitment) -> (r: Option<u64>)
        requires
            self.wf(),
        ensures
            match latest_at(self.data_cache.block_store@, commitment) {
                Some(lv) => r == Some(lv.block_height),
                None => r is None,
            },
    {
        match self.data_cache.block_store.get_latest_block(commitment) {
            Some(b) => Some(b.block_height),
            None => None,
        }
    }

    /// The recorded block time of one slot; not-found when the slot is
    /// outside the cache.
    pub fn get_block_time(&self, slot: Slot) -> (r: Result<u64, RpcErrorKind>)
        requires
            self.wf(),
        ensures
            match lookup_slot(self.data_cache.block_store@, slot) {
                Some(v) => r == Ok::<u64, RpcErrorKind>(v.block_time),
                None => r == Err::<u64, RpcErrorKind>(RpcErrorKind::NotFound),
            },
    {
        match self.data_cache.block_store.get_block_info_by_slot(slot) {
            Some(b) => Ok(b.block_time),
            None => Err(RpcErrorKind::NotFound),
        }
    }

    /// The newest blockhash at the commitment, with the context slot and
    /// the last block height at which it stays valid; `None` while the
    /// cache has nothing at that commitment.
    pub fn get_latest_blockhash(&self, commitment: Commitment) -> (r: Option<RpcBlockhash>)
        requires
            self.wf(),
        ensures
            match latest_at(self.data_cache.block_store@, commitment) {
                Some(lv) => {
                    &&& r is Some
                    &&& r.unwrap().slot == lv.slot
                    &&& r.unwrap().blockhash@ == lv.blockhash
                    &&& lv.block_height + MAX_RECENT_BLOCKHASHES <= u64::MAX
                        ==> r.unwrap().last_valid_block_height == lv.block_height
                        + MAX_RECENT_BLOCKHASHES
                    &&& lv.block_height + MAX_RECENT_BLOCKHASHES > u64::MAX
                        ==> r.unwrap().last_valid_block_height == u64::MAX
                },
                None => r is None,
            },
    {
        match self.data_cache.block_store.get_latest_block(commitment) {
            Some(b) => {
                let last_valid = if b.block_height <= u64::MAX - MAX_RECENT_BLOCKHASHES {
                    b.block_height + MAX_RECENT_BLOCKHASHES
                } else {
                    u64::MAX
                };
                Some(
                    RpcBlockhash {
                        slot: b.slot,
                        blockhash: b.blockhash,
                        last_valid_block_height: last_valid,
                    },
                )
            },
            None => None,
        }
    }

    /// Whether the hash is still valid at the commitment, with the slot of
    /// the check.
    pub fn is_blockhash_valid(&self, blockhash: &String, commitment: Commitment) -> (r: (
        bool,
        Slot,
    ))
        requires
            self.wf(),
        ensures
            match latest_at(self.data_cache.block_store@, commitment) {
                None => r.0 == false && r.1 == 0,
                Some(lv) => r.1 == lv.slot && r.0 == hash_valid_in(
                    self.data_cache.block_store@,
                    blockhash@,
                    commitment,
                    lv.block_height,
                ),
            },
    {
        self.data_cache.block_store.is_blockhash_valid(blockhash, commitment)
    }

    /// The status of each queried signature, in query order: absent for
    /// signatures that are unknown, still pending or expired.
    pub fn get_signature_statuses(&self, sigs: &Vec<String>) -> (r: Vec<Option<TxStatusLevel>>)
        ensures
            r@.len() == sigs@.len(),
            forall|i: int| #![auto]
                0 <= i < sigs@.len() ==> r@[i] == (match status_lookup(
                    self.data_cache.txs@,
                    sigs.deep_view()[i],
                ) {
                    Some(st) => spec_status_of(st),
                    None => None,
                }),
    {
        let n = sigs.len();
        let mut r: Vec<Option<TxStatusLevel>> = Vec::new();
        let mut i: usize = 0;
        while i < n
            invariant
                n == sigs.len(),
                0 <= i <= n,
                r@.len() == i,
                forall|j: int| #![auto]
                    0 <= j < i ==> r@[j] == (match status_lookup(
                        self.data_cache.txs@,
                        sigs.deep_view()[j],
                    ) {
                        Some(st) => spec_status_of(st),
                        None => None,
                    }),
            decreases n - i,
        {
            r.push(self.data_cache.txs.get_status(&sigs[i]));
            i = i + 1;
        }
        r
    }

    /// Accept one submission: check its size, decode it, extract its
    /// signature and start tracking it. What comes back is ready for the
    /// forwarder; the signature text identifies the submission from here
    /// on.
    pub fn submit_transaction(
        &mut self,
        tx: &str,
        encoding: BinaryEncoding,
        max_retries: u16,
        last_valid_block_height: u64,
        now_ms: u64,
    ) -> (r: Result<PreparedTransaction, SendTxError>)
        requires
            old(self).wf(),
        ensures
            final(self).wf(),
            r == Err::<PreparedTransaction, SendTxError>(SendTxError::TooLarge)
                <==> tx.spec_bytes().len() > spec_size_limit(encoding),
            tx.spec_bytes().len() <= spec_size_limit(encoding) ==> match r {
                Ok(_) => true,
                Err(e) => e == SendTxError::Decode && match spec_decoded(tx@, encoding) {
                    Some(raw) => spec_first_signature(raw) is None,
                    None => true,
                },
            },
            match r {
                Ok(p) => {
                    &&& spec_decoded(tx@, encoding) == Some(p.raw_tx@)
                    &&& spec_first_signature(p.raw_tx@) is Some
                    &&& p.signature_base58@ == base58_of(spec_first_signature(p.raw_tx@).unwrap())
                    &&& p.max_retries == max_retries
                    &&& (if contains_signature(old(self).data_cache.txs@, p.signature_base58@) {
                        final(self).data_cache.txs@ == old(self).data_cache.txs@
                    } else {
                        final(self).data_cache.txs@ == old(self).data_cache.txs@.push(
                            TrackedTxView {
                                signature: p.signature_base58@,
                                last_valid_block_height,
                                max_retries,
                                retries_used: 0,
                                sent_ts: now_ms,
                                confirmed_ts: None,
                                state: TxState::Queued,
                            },
                        )
                    })
                },
                Err(_) => final(self).data_cache.txs@ == old(self).data_cache.txs@,
            },
            final(self).data_cache.block_store == old(self).data_cache.block_store,
    {
        match prepare_transaction(tx, encoding, max_retries) {
            Ok(p) => {
                let sig = p.signature_base58.clone();
                self.data_cache.txs.register(sig, last_valid_block_height, max_retries, now_ms);
                Ok(p)
            },
            Err(e) => Err(e),
        }
    }
}

} // verus!
