use lite_rpc::Commitment;
use lite_rpc::block::ProducedBlock;
use lite_rpc::block::Reward;
use lite_rpc::postgres::PostgresBlock;
use lite_rpc::postgres::SaveOutcome;
use lite_rpc::postgres::build_create_table_statement;
use lite_rpc::postgres::build_insert_statement;
use lite_rpc::postgres::build_query_statement;
use lite_rpc::postgres::build_schema_name;
use lite_rpc::postgres::classify_insert_outcome;
use lite_rpc::postgres::u64_dec_string;

#[test]
fn decimal_rendering() {
    assert_eq!(u64_dec_string(0), "0");
    assert_eq!(u64_dec_string(7), "7");
    assert_eq!(u64_dec_string(12345), "12345");
    assert_eq!(u64_dec_string(u64::MAX), "18446744073709551615");
}

#[test]
fn schema_name_carries_epoch() {
    assert_eq!(build_schema_name(0), "rpc2a_epoch_0");
    assert_eq!(build_schema_name(612), "rpc2a_epoch_612");
}

#[test]
fn create_table_statement_text() {
    let stmt = build_create_table_statement(5);
    assert_eq!(
        stmt,
        "CREATE TABLE IF NOT EXISTS rpc2a_epoch_5.blocks (slot BIGINT NOT NULL, \
         blockhash TEXT NOT NULL, leader_id TEXT, block_height BIGINT NOT NULL, \
         parent_slot BIGINT NOT NULL, block_time BIGINT NOT NULL, \
         previous_blockhash TEXT NOT NULL, rewards TEXT, \
         CONSTRAINT pk_block_slot PRIMARY KEY(slot)) WITH (FILLFACTOR=90); \
         CLUSTER rpc2a_epoch_5.blocks USING pk_block_slot;"
    );
}

#[test]
fn query_statement_text() {
    let stmt = build_query_statement(5, 1234);
    assert_eq!(
        stmt,
        "SELECT slot, blockhash, block_height, parent_slot, block_time, \
         previous_blockhash, rewards, leader_id, 5::bigint as _epoch, \
         'rpc2a_epoch_5'::text as _epoch_schema FROM rpc2a_epoch_5.blocks WHERE slot = 1234"
    );
}

#[test]
fn insert_statement_text() {
    let stmt = build_insert_statement(9);
    assert!(stmt.starts_with("INSERT INTO rpc2a_epoch_9.blocks (slot, blockhash"));
    assert!(stmt.contains("ON CONFLICT DO NOTHING"));
    assert!(stmt.contains("RETURNING"));
    assert!(stmt.ends_with("WHERE all_blocks.slot!=rpc2a_epoch_9.blocks.slot)"));
}

#[test]
fn insert_outcomes() {
    assert_eq!(classify_insert_outcome(None, 10), SaveOutcome::AlreadyExisted);
    assert_eq!(
        classify_insert_outcome(Some(None), 10),
        SaveOutcome::Inserted { out_of_order: false }
    );
    assert_eq!(
        classify_insert_outcome(Some(Some(9)), 10),
        SaveOutcome::Inserted { out_of_order: false }
    );
    assert_eq!(
        classify_insert_outcome(Some(Some(11)), 10),
        SaveOutcome::Inserted { out_of_order: true }
    );
}

#[test]
fn block_row_round_trip() {
    let block = ProducedBlock {
        slot: 42,
        blockhash: "hash42".to_string(),
        parent_slot: 41,
        block_height: 40,
        block_time: 1700000042,
        previous_blockhash: "hash41".to_string(),
        leader_id: Some("leader".to_string()),
        rewards: None,
        transactions: vec![],
        commitment: Commitment::Finalized,
    };
    let row = PostgresBlock::from_produced(&block, Some("encodedrewards".to_string()));
    assert_eq!(row.slot, 42);
    assert_eq!(row.blockhash, "hash42");
    assert_eq!(row.leader_id, Some("leader".to_string()));
    assert_eq!(row.rewards, Some("encodedrewards".to_string()));

    // the rewards come back from their parsed stored rendering
    let parsed_rewards = vec![Reward { pubkey: "staker".to_string(), lamports: 12 }];
    let back = row.into_produced_block(Some(parsed_rewards), Commitment::Confirmed);
    assert_eq!(back.slot, 42);
    assert_eq!(back.blockhash, "hash42");
    assert_eq!(back.block_height, 40);
    assert_eq!(back.commitment, Commitment::Confirmed);
    let rewards = back.rewards.expect("rewards reproduced");
    assert_eq!(rewards.len(), 1);
    assert_eq!(rewards[0].pubkey, "staker");
    assert_eq!(rewards[0].lamports, 12);
    // the stored row keeps no transaction list and no leader: both empty
    assert!(back.transactions.is_empty());
    assert!(back.leader_id.is_none());

    let bare = PostgresBlock::from_produced(&block, None).into_produced_block(
        None,
        Commitment::Finalized,
    );
    assert!(bare.rewards.is_none());
}
