//! The persisted form of a block and the statements the persister runs:
//! one `blocks` table per epoch schema, idempotent inserts, and a
//! returning clause that reveals out-of-order arrivals.
use vstd::prelude::*;
use crate::Commitment;
use crate::Slot;
use crate::block::ProducedBlock;
use crate::block::Reward;
use crate::block::TransactionInfo;

verus! {

/// The decimal digits of a number, most significant first, as ASCII bytes.
pub open spec fn spec_dec_digits(n: u64) -> Seq<u8>
    decreases n,
{
    if n < 10 {
        seq![(0x30 + n) as u8]
    } else {
        spec_dec_digits(n / 10).push((0x30 + n % 10) as u8)
    }
}

/// The decimal rendering of a number.
pub open spec fn spec_dec_str(n: u64) -> Seq<char> {
    spec_dec_digits(n).map_values(|b: u8| b as char)
}

/// Decimal digits are ASCII.
pub proof fn lemma_dec_digits_ascii(n: u64)
    ensures
        forall|i: int|
            0 <= i < spec_dec_digits(n).len() ==> 0x30 <= #[trigger] spec_dec_digits(n)[i] < 0x3a,
    decreases n,
{
    if n >= 10 {
        lemma_dec_digits_ascii(n / 10);
        assert(forall|i: int|
            0 <= i < spec_dec_digits(n).len() - 1 ==> spec_dec_digits(n)[i] == spec_dec_digits(
                n / 10,
            )[i]);
    }
}

/// The decimal digits of a number, as bytes.
pub fn u64_dec_digits(n: u64) -> (r: Vec<u8>)
    ensures
        r@ == spec_dec_digits(n),
    decreases n,
{
    if n < 10 {
        let mut v: Vec<u8> = Vec::new();
        v.push(0x30 + (n as u8));
        proof {
            assert(v@ =~= seq![(0x30 + n) as u8]);
        }
        v
    } else {
        let mut v = u64_dec_digits(n / 10);
        v.push(0x30 + ((n % 10) as u8));
        v
    }
}

/// Relies on `String::from_utf8`: ASCII bytes become exactly their
/// characters.
#[verifier::external_body]
fn ascii_to_string(b: Vec<u8>) -> (r: String)
    requires
        forall|i: int| 0 <= i < b@.len() ==> b@[i] < 0x80,
    ensures
        r@.len() == b@.len(),
        forall|i: int| 0 <= i < b@.len() ==> r@[i] == b@[i] as char,
{
    match String::from_utf8(b) {
        Ok(s) => s,
        Err(_) => String::new(),
    }
}

/// The decimal rendering of a number.
pub fn u64_dec_string(n: u64) -> (r: String)
    ensures
        r@ == spec_dec_str(n),
{
    let digits = u64_dec_digits(n);
    proof {
        lemma_dec_digits_ascii(n);
    }
    let r = ascii_to_string(digits);
    proof {
        let f = |b: u8| b as char;
        let mapped = spec_dec_digits(n).map_values(f);
        assert forall|i: int| 0 <= i < mapped.len() implies mapped[i] == r@[i] by {
            assert(mapped[i] == f(spec_dec_digits(n)[i]));
        }
        assert(r@ =~= mapped);
    }
    r
}

/// The schema holding one epoch's tables.
pub open spec fn spec_schema_name(epoch: u64) -> Seq<char> {
    "rpc2a_epoch_"@ + spec_dec_str(epoch)
}

/// The name of the schema holding this epoch's tables.
pub fn build_schema_name(epoch: u64) -> (r: String)
    ensures
        r@ == spec_schema_name(epoch),
{
    let mut r = String::from_str("rpc2a_epoch_");
    let digits = u64_dec_string(epoch);
    r.append(digits.as_str());
    r
}

/// A block row as the persister stores it: numeric columns widened to the
/// database's signed integers, the rewards already rendered to text by
/// the caller.
#[derive(Debug)]
pub struct PostgresBlock {
    pub slot: i64,
    pub blockhash: String,
    pub block_height: i64,
    pub parent_slot: i64,
    pub block_time: i64,
    pub previous_blockhash: String,
    pub rewards: Option<String>,
    pub leader_id: Option<String>,
}

/// Spec-level image of a `PostgresBlock`.
pub ghost struct PostgresBlockView {
    pub slot: i64,
    pub blockhash: Seq<char>,
    pub block_height: i64,
    pub parent_slot: i64,
    pub block_time: i64,
    pub previous_blockhash: Seq<char>,
    pub rewards: Option<Seq<char>>,
    pub leader_id: Option<Seq<char>>,
}

impl View for PostgresBlock {
    type V = PostgresBlockView;

    open spec fn view(&self) -> PostgresBlockView {
        PostgresBlockView {
            slot: self.slot,
            blockhash: self.blockhash@,
            block_height: self.block_height,
            parent_slot: self.parent_slot,
            block_time: self.block_time,
            previous_blockhash: self.previous_blockhash@,
            rewards: match self.rewards {
                Some(ref s) => Some(s@),
                None => None,
            },
            leader_id: match self.leader_id {
                Some(ref s) => Some(s@),
                None => None,
            },
        }
    }
}

impl PostgresBlock {
    /// The row for one produced block. The rewards column is handed in
    /// already rendered (the wire encoding of the rewards list is the
    /// persister's concern, outside this core).
    pub fn from_produced(b: &ProducedBlock, rewards_text: Option<String>) -> (r: PostgresBlock)
        requires
            b.slot <= i64::MAX,
            b.block_height <= i64::MAX,
            b.parent_slot <= i64::MAX,
            b.block_time <= i64::MAX,
        ensures
            r@.slot == b@.slot,
            r@.blockhash == b@.blockhash,
            r@.block_height == b@.block_height,
            r@.parent_slot == b@.parent_slot,
            r@.block_time == b@.block_time,
            r@.previous_blockhash == b@.previous_blockhash,
            r@.rewards == (match rewards_text {
                Some(s) => Some(s@),
                None => None::<Seq<char>>,
            }),
            r@.leader_id == (match b@.leader_id {
                Some(s) => Some(s),
                None => None::<Seq<char>>,
            }),
    {
        PostgresBlock {
            slot: b.slot as i64,
            blockhash: b.blockhash.clone(),
            block_height: b.block_height as i64,
            parent_slot: b.parent_slot as i64,
            block_time: b.block_time as i64,
            previous_blockhash: b.previous_blockhash.clone(),
            rewards: rewards_text,
            leader_id: match b.leader_id {
                Some(ref s) => Some(s.clone()),
                None => None,
            },
        }
    }

    /// The block read back from its row, with the rewards list already
    /// parsed out of the stored rendering (the wire encoding of that
    /// rendering is the persister's concern, like in `from_produced`). The
    /// stored row keeps no transaction list and no leader, so both come
    /// back empty: a reader that needs them must fetch them from their own
    /// table.
    pub fn into_produced_block(&self, rewards: Option<Vec<Reward>>, commitment: Commitment) -> (r:
        ProducedBlock)
        requires
            self.slot >= 0,
            self.block_height >= 0,
            self.parent_slot >= 0,
            self.block_time >= 0,
        ensures
            r@.slot == self@.slot,
            r@.blockhash == self@.blockhash,
            r@.block_height == self@.block_height,
            r@.parent_slot == self@.parent_slot,
            r@.block_time == self@.block_time,
            r@.previous_blockhash == self@.previous_blockhash,
            r@.commitment == commitment,
            r@.rewards == (match rewards {
                Some(rs) => Some(rs.deep_view()),
                None => None::<Seq<crate::block::RewardView>>,
            }),
            r@.transactions == Seq::<crate::block::TransactionInfoView>::empty(),
            r@.leader_id is None,
    {
        let transactions: Vec<TransactionInfo> = Vec::new();
        let r = ProducedBlock {
            slot: self.slot as Slot,
            blockhash: self.blockhash.clone(),
            parent_slot: self.parent_slot as Slot,
            block_height: self.block_height as u64,
            block_time: self.block_time as u64,
            previous_blockhash: self.previous_blockhash.clone(),
            leader_id: None,
            rewards,
            transactions,
            commitment,
        };
        proof {
            assert(r@.transactions =~= Seq::<crate::block::TransactionInfoView>::empty());
        }
        r
    }
}

/// The create-table statement of one epoch's `blocks` table.
pub open spec fn spec_create_table_statement(epoch: u64) -> Seq<char> {
    "CREATE TABLE IF NOT EXISTS "@ + spec_schema_name(epoch)
        + ".blocks (slot BIGINT NOT NULL, blockhash TEXT NOT NULL, leader_id TEXT, block_height BIGINT NOT NULL, parent_slot BIGINT NOT NULL, block_time BIGINT NOT NULL, previous_blockhash TEXT NOT NULL, rewards TEXT, CONSTRAINT pk_block_slot PRIMARY KEY(slot)) WITH (FILLFACTOR=90); CLUSTER "@
        + spec_schema_name(epoch) + ".blocks USING pk_block_slot;"@
}

/// Build the create-table statement of one epoch's `blocks` table.
pub fn build_create_table_statement(epoch: u64) -> (r: String)
    ensures
        r@ == spec_create_table_statement(epoch),
{
    let schema = build_schema_name(epoch);
    let mut r = String::from_str("CREATE TABLE IF NOT EXISTS ");
    r.append(schema.as_str());
    r.append(
        ".blocks (slot BIGINT NOT NULL, blockhash TEXT NOT NULL, leader_id TEXT, block_height BIGINT NOT NULL, parent_slot BIGINT NOT NULL, block_time BIGINT NOT NULL, previous_blockhash TEXT NOT NULL, rewards TEXT, CONSTRAINT pk_block_slot PRIMARY KEY(slot)) WITH (FILLFACTOR=90); CLUSTER ",
    );
    r.append(schema.as_str());
    r.append(".blocks USING pk_block_slot;");
    r
}

/// The lookup statement for one slot in one epoch.
pub open spec fn spec_query_statement(epoch: u64, slot: Slot) -> Seq<char> {
    "SELECT slot, blockhash, block_height, parent_slot, block_time, previous_blockhash, rewards, leader_id, "@
        + spec_dec_str(epoch) + "::bigint as _epoch, '"@ + spec_schema_name(epoch)
        + "'::text as _epoch_schema FROM "@ + spec_schema_name(epoch) + ".blocks WHERE slot = "@
        + spec_dec_str(slot)
}

/// Build the lookup statement for one slot in one epoch.
pub fn build_query_statement(epoch: u64, slot: Slot) -> (r: String)
    ensures
        r@ == spec_query_statement(epoch, slot),
{
    let schema = build_schema_name(epoch);
    let epoch_text = u64_dec_string(epoch);
    let slot_text = u64_dec_string(slot);
    let mut r = String::from_str(
        "SELECT slot, blockhash, block_height, parent_slot, block_time, previous_blockhash, rewards, leader_id, ",
    );
    r.append(epoch_text.as_str());
    r.append("::bigint as _epoch, '");
    r.append(schema.as_str());
    r.append("'::text as _epoch_schema FROM ");
    r.append(schema.as_str());
    r.append(".blocks WHERE slot = ");
    r.append(slot_text.as_str());
    r
}

/// The idempotent insert of one block row, returning the previous highest
/// slot so the caller can notice out-of-order arrivals.
pub open spec fn spec_insert_statement(epoch: u64) -> Seq<char> {
    "INSERT INTO "@ + spec_schema_name(epoch)
        + ".blocks (slot, blockhash, block_height, parent_slot, block_time, previous_blockhash, rewards, leader_id) VALUES ($1, $2, $3, $4, $5, $6, $7, $8) ON CONFLICT DO NOTHING RETURNING (SELECT max(all_blocks.slot) as prev_max_slot FROM "@
        + spec_schema_name(epoch) + ".blocks AS all_blocks WHERE all_blocks.slot!="@
        + spec_schema_name(epoch) + ".blocks.slot)"@
}

/// Build the insert statement for one epoch's `blocks` table.
pub fn build_insert_statement(epoch: u64) -> (r: String)
    ensures
        r@ == spec_insert_statement(epoch),
{
    let schema = build_schema_name(epoch);
    let mut r = String::from_str("INSERT INTO ");
    r.append(schema.as_str());
    r.append(
        ".blocks (slot, blockhash, block_height, parent_slot, block_time, previous_blockhash, rewards, leader_id) VALUES ($1, $2, $3, $4, $5, $6, $7, $8) ON CONFLICT DO NOTHING RETURNING (SELECT max(all_blocks.slot) as prev_max_slot FROM ",
    );
    r.append(schema.as_str());
    r.append(".blocks AS all_blocks WHERE all_blocks.slot!=");
    r.append(schema.as_str());
    r.append(".blocks.slot)");
    r
}

/// How one insert went.
#[derive(Clone, Copy, Debug, PartialEq, Eq, Structural)]
pub enum SaveOutcome {
    /// The row went in. Out of order when some other row already had a
    /// higher slot (a warning, never fatal).
    Inserted { out_of_order: bool },
    /// The database already had the slot; nothing was written.
    AlreadyExisted,
}

/// Judge the returning clause of one insert: no row back means the
/// conflict policy swallowed the insert; otherwise the previous maximum
/// slot (absent on the first ever row) tells whether this block arrived
/// behind the tip.
pub fn classify_insert_outcome(returning: Option<Option<i64>>, slot: i64) -> (r: SaveOutcome)
    ensures
        r == (match returning {
            None => SaveOutcome::AlreadyExisted,
            Some(prev) => SaveOutcome::Inserted {
                out_of_order: match prev {
                    Some(p) => p > slot,
                    None => false,
                },
            },
        }),
{
    match returning {
        None => SaveOutcome::AlreadyExisted,
        Some(prev) => SaveOutcome::Inserted {
            out_of_order: match prev {
                Some(p) => p > slot,
                None => false,
            },
        },
    }
}

} // verus!
