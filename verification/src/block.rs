//! Typed block records and the projections the gateway retains.
use vstd::prelude::*;
use crate::Commitment;
use crate::Slot;

verus! {

/// One transaction as it appears inside a produced block's ordered list.
pub struct TransactionInfo {
    /// Base58 rendering of the 64-byte transaction signature.
    pub signature: String,
}

/// Spec-level image of a `TransactionInfo`.
pub ghost struct TransactionInfoView {
    pub signature: Seq<char>,
}

impl View for TransactionInfo {
    type V = TransactionInfoView;

    open spec fn view(&self) -> TransactionInfoView {
        TransactionInfoView { signature: self.signature@ }
    }
}

impl DeepView for TransactionInfo {
    type V = TransactionInfoView;

    open spec fn deep_view(&self) -> TransactionInfoView {
        self.view()
    }
}

/// A staking reward attached to a block.
pub struct Reward {
    pub pubkey: String,
    pub lamports: i64,
}

/// Spec-level image of a `Reward`.
pub ghost struct RewardView {
    pub pubkey: Seq<char>,
    pub lamports: i64,
}

impl View for Reward {
    type V = RewardView;

    open spec fn view(&self) -> RewardView {
        RewardView { pubkey: self.pubkey@, lamports: self.lamports }
    }
}

impl DeepView for Reward {
    type V = RewardView;

    open spec fn deep_view(&self) -> RewardView {
        self.view()
    }
}

/// A block as observed once on one upstream stream, before a commitment
/// level is stamped onto it.
pub struct BlockUpdate {
    pub slot: Slot,
    pub blockhash: String,
    pub parent_slot: Slot,
    pub block_height: u64,
    pub block_time: u64,
    pub previous_blockhash: String,
    pub leader_id: Option<String>,
    pub rewards: Option<Vec<Reward>>,
    pub transactions: Vec<TransactionInfo>,
}

/// A block record as published on the merged stream: one observation of one
/// slot at one commitment level.
pub struct ProducedBlock {
    pub slot: Slot,
    pub blockhash: String,
    pub parent_slot: Slot,
    pub block_height: u64,
    pub block_time: u64,
    pub previous_blockhash: String,
    pub leader_id: Option<String>,
    pub rewards: Option<Vec<Reward>>,
    pub transactions: Vec<TransactionInfo>,
    pub commitment: Commitment,
}

/// Spec-level image of a `ProducedBlock`.
pub ghost struct ProducedBlockView {
    pub slot: Slot,
    pub blockhash: Seq<char>,
    pub parent_slot: Slot,
    pub block_height: u64,
    pub block_time: u64,
    pub previous_blockhash: Seq<char>,
    pub leader_id: Option<Seq<char>>,
    pub rewards: Option<Seq<RewardView>>,
    pub transactions: Seq<TransactionInfoView>,
    pub commitment: Commitment,
}

impl View for ProducedBlock {
    type V = ProducedBlockView;

    open spec fn view(&self) -> ProducedBlockView {
        ProducedBlockView {
            slot: self.slot,
            blockhash: self.blockhash@,
            parent_slot: self.parent_slot,
            block_height: self.block_height,
            block_time: self.block_time,
            previous_blockhash: self.previous_blockhash@,
            leader_id: match self.leader_id {
                Some(ref s) => Some(s@),
                None => None,
            },
            rewards: match self.rewards {
                Some(ref rs) => Some(rs.deep_view()),
                None => None,
            },
            transactions: self.transactions.deep_view(),
            commitment: self.commitment,
        }
    }
}

/// The retained projection of a `ProducedBlock`: everything the recency
/// queries need, without the transaction list.
pub struct BlockInformation {
    pub slot: Slot,
    pub block_height: u64,
    pub blockhash: String,
    pub block_time: u64,
    pub previous_blockhash: String,
    pub commitment: Commitment,
}

/// Spec-level image of a `BlockInformation`.
pub ghost struct BlockInfoView {
    pub slot: Slot,
    pub block_height: u64,
    pub blockhash: Seq<char>,
    pub block_time: u64,
    pub previous_blockhash: Seq<char>,
    pub commitment: Commitment,
}

impl View for BlockInformation {
    type V = BlockInfoView;

    open spec fn view(&self) -> BlockInfoView {
        BlockInfoView {
            slot: self.slot,
            block_height: self.block_height,
            blockhash: self.blockhash@,
            block_time: self.block_time,
            previous_blockhash: self.previous_blockhash@,
            commitment: self.commitment,
        }
    }
}

impl DeepView for BlockInformation {
    type V = BlockInfoView;

    open spec fn deep_view(&self) -> BlockInfoView {
        self.view()
    }
}

impl BlockInformation {
    /// Field-by-field copy; unlike a derived `Clone`, its contract keeps
    /// the view.
    pub fn duplicate(&self) -> (r: BlockInformation)
        ensures
            r@ == self@,
    {
        BlockInformation {
            slot: self.slot,
            block_height: self.block_height,
            blockhash: self.blockhash.clone(),
            block_time: self.block_time,
            previous_blockhash: self.previous_blockhash.clone(),
            commitment: self.commitment,
        }
    }

    /// Project a produced block down to the metadata the store retains.
    pub fn from_produced(b: &ProducedBlock) -> (r: BlockInformation)
        ensures
            r@ == (BlockInfoView {
                slot: b@.slot,
                block_height: b@.block_height,
                blockhash: b@.blockhash,
                block_time: b@.block_time,
                previous_blockhash: b@.previous_blockhash,
                commitment: b@.commitment,
            }),
    {
        BlockInformation {
            slot: b.slot,
            block_height: b.block_height,
            blockhash: b.blockhash.clone(),
            block_time: b.block_time,
            previous_blockhash: b.previous_blockhash.clone(),
            commitment: b.commitment,
        }
    }
}

/// A slot progress notification from one upstream source.
#[derive(Clone, Copy, Debug, PartialEq, Eq, Structural)]
pub struct SlotNotification {
    pub processed_slot: Slot,
    pub estimated_processed_slot: Slot,
}

/// One message of an upstream block subscription, with the payloads the
/// core reads held as plain values.
pub enum UpdateMessage {
    Block(BlockUpdate),
    Slot(SlotNotification),
    Transaction(TransactionInfo),
    Ping,
}

/// Stamp a commitment level onto a raw block observation.
pub fn stamp_commitment(u: BlockUpdate, commitment: Commitment) -> (r: ProducedBlock)
    ensures
        r.slot == u.slot,
        r.blockhash@ == u.blockhash@,
        r.parent_slot == u.parent_slot,
        r.block_height == u.block_height,
        r.block_time == u.block_time,
        r.previous_blockhash@ == u.previous_blockhash@,
        r.leader_id == u.leader_id,
        r.rewards == u.rewards,
        r.transactions == u.transactions,
        r.commitment == commitment,
{
    ProducedBlock {
        slot: u.slot,
        blockhash: u.blockhash,
        parent_slot: u.parent_slot,
        block_height: u.block_height,
        block_time: u.block_time,
        previous_blockhash: u.previous_blockhash,
        leader_id: u.leader_id,
        rewards: u.rewards,
        transactions: u.transactions,
        commitment: commitment,
    }
}

/// The per-protocol extractor: keep only block payloads, stamped with the
/// commitment level of the subscription they arrived on.
pub fn extract_block(update: UpdateMessage, commitment: Commitment) -> (r: Option<(Slot, ProducedBlock)>)
    ensures
        match update {
            UpdateMessage::Block(u) => {
                &&& r is Some
                &&& r.unwrap().0 == u.slot
                &&& r.unwrap().1.slot == u.slot
                &&& r.unwrap().1.blockhash@ == u.blockhash@
                &&& r.unwrap().1.parent_slot == u.parent_slot
                &&& r.unwrap().1.block_height == u.block_height
                &&& r.unwrap().1.block_time == u.block_time
                &&& r.unwrap().1.previous_blockhash@ == u.previous_blockhash@
                &&& r.unwrap().1.leader_id == u.leader_id
                &&& r.unwrap().1.rewards == u.rewards
                &&& r.unwrap().1.transactions == u.transactions
                &&& r.unwrap().1.commitment == commitment
            },
            _ => r is None,
        },
{
    match update {
        UpdateMessage::Block(u) => {
            let slot = u.slot;
            Some((slot, stamp_commitment(u, commitment)))
        },
        _ => None,
    }
}

} // verus!
