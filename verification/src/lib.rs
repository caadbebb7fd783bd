use vstd::prelude::*;

pub mod auditor;
pub mod block;
pub mod block_store;
pub mod encoding;
pub mod metrics;
pub mod multiplex;
pub mod postgres;
pub mod rpc;
pub mod source;
pub mod stake;
pub mod takable;
pub mod tracker;

verus! {

/// A slot: one scheduled block production opportunity on the chain.
pub type Slot = u64;

/// How stable a block observation is on the canonical chain.
/// The three levels are strictly ordered: `Processed < Confirmed < Finalized`.
#[derive(Clone, Copy, Debug, PartialEq, Eq, Structural)]
pub enum Commitment {
    Processed,
    Confirmed,
    Finalized,
}

impl Commitment {
    /// Numeric rank of the level inside the commitment ladder.
    pub open spec fn rank(self) -> int {
        match self {
            Commitment::Processed => 0,
            Commitment::Confirmed => 1,
            Commitment::Finalized => 2,
        }
    }

    /// True iff `self` is at least as strong as `other`.
    pub fn at_least(self, other: Commitment) -> (r: bool)
        ensures
            r == (self.rank() >= other.rank()),
    {
        match (self, other) {
            (Commitment::Finalized, _) => true,
            (Commitment::Confirmed, Commitment::Finalized) => false,
            (Commitment::Confirmed, _) => true,
            (Commitment::Processed, Commitment::Processed) => true,
            (Commitment::Processed, _) => false,
        }
    }
}

} // verus!
