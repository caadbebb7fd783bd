use lite_rpc::stake::AccountUpdate;
use lite_rpc::stake::ParsedStake;
use lite_rpc::stake::StakeAction;
use lite_rpc::stake::StakeDelegation;
use lite_rpc::stake::StakeError;
use lite_rpc::stake::StakeMap;
use lite_rpc::stake::StakeStore;
use lite_rpc::stake::StoredStake;
use lite_rpc::stake::merge_program_account_in_strake_map;

fn delegation(voter: &str, amount: u64) -> StakeDelegation {
    StakeDelegation {
        voter_pubkey: voter.to_string(),
        stake: amount,
        activation_epoch: 1,
        deactivation_epoch: u64::MAX,
    }
}

fn stored(pubkey: &str, lamports: u64, slot: u64) -> StoredStake {
    StoredStake {
        pubkey: pubkey.to_string(),
        lamports,
        stake: delegation("voter", lamports),
        last_update_slot: slot,
        write_version: 0,
    }
}

#[test]
fn newest_slot_wins_in_stake_map() {
    let mut map = StakeMap::new(8);
    map.notify_stake(stored("acct", 100, 10));
    map.notify_stake(stored("acct", 200, 9)); // older: ignored
    assert_eq!(map.get(&"acct".to_string()).unwrap().lamports, 100);
    map.notify_stake(stored("acct", 300, 10)); // equal slot: replaces
    assert_eq!(map.get(&"acct".to_string()).unwrap().lamports, 300);
    map.notify_stake(stored("acct", 400, 11)); // newer: replaces
    assert_eq!(map.get(&"acct".to_string()).unwrap().lamports, 400);
    assert_eq!(map.len(), 1);
}

#[test]
fn stale_removal_is_ignored() {
    let mut map = StakeMap::new(8);
    map.notify_stake(stored("acct", 100, 10));
    map.remove_stake(&"acct".to_string(), 9); // older than the stored state
    assert!(map.get(&"acct".to_string()).is_some());
    map.remove_stake(&"acct".to_string(), 10);
    assert!(map.get(&"acct".to_string()).is_none());
}

#[test]
fn take_merge_cycle_replays_queued_actions_in_order() {
    // Populate, take, queue updates while taken, merge: the merged map
    // equals the taken snapshot with every queued action applied in
    // insertion order.
    let mut store = StakeStore::new(16);
    store.notify_stake_action(StakeAction::Notify { stake: stored("a", 1, 5) }, 100);
    store.notify_stake_action(StakeAction::Notify { stake: stored("b", 2, 6) }, 100);
    store.notify_stake_action(StakeAction::Notify { stake: stored("c", 3, 7) }, 100);

    let content = store.take_stakestore().expect("populated");
    assert_eq!(content.stakes.len(), 3);
    // while taken, updates queue
    store.notify_stake_action(StakeAction::Notify { stake: stored("a", 10, 8) }, 100);
    store.notify_stake_action(StakeAction::Remove("c".to_string(), 9), 100);
    store.notify_stake_action(StakeAction::Notify { stake: stored("d", 4, 9) }, 100);
    // a second take fails while taken
    assert!(store.take_stakestore().is_err());

    store.merge_stakestore(content).expect("was taken");
    let merged = store.take_stakestore().expect("populated again");
    assert_eq!(merged.stakes.len(), 3); // a, b, d: c removed
    assert_eq!(merged.stakes.get(&"a".to_string()).unwrap().lamports, 10);
    assert_eq!(merged.stakes.get(&"b".to_string()).unwrap().lamports, 2);
    assert!(merged.stakes.get(&"c".to_string()).is_none());
    assert_eq!(merged.stakes.get(&"d".to_string()).unwrap().lamports, 4);
}

#[test]
fn action_past_epoch_boundary_queues() {
    let mut store = StakeStore::new(4);
    // the action's slot is past the epoch boundary: deferred, not applied
    store.notify_stake_action(StakeAction::Notify { stake: stored("late", 5, 200) }, 100);
    let content = store.take_stakestore().unwrap();
    assert_eq!(content.stakes.len(), 0);
    store.merge_stakestore(content).unwrap();
    // the merge replayed the deferred action
    let content = store.take_stakestore().unwrap();
    assert_eq!(content.stakes.len(), 1);
    store.merge_stakestore(content).unwrap();
}

#[test]
fn merge_fails_when_not_taken() {
    let mut store = StakeStore::new(4);
    let content = store.take_stakestore().unwrap();
    store.merge_stakestore(content).unwrap();
    let content2 = store.take_stakestore().unwrap();
    store.merge_stakestore(content2).unwrap();
    let spare = store.take_stakestore().unwrap();
    store.merge_stakestore(spare).unwrap();
    let extra = StakeStore::new(0).take_stakestore().unwrap();
    assert!(store.merge_stakestore(extra).is_err());
}

#[test]
fn stake_change_cases() {
    let mut store = StakeStore::new(8);
    // a delegated account is stored
    let update = AccountUpdate {
        pubkey: "acct".to_string(),
        lamports: 50,
        slot: 10,
        write_version: 1,
        stake: ParsedStake::Delegated(delegation("voter", 50)),
    };
    assert!(store.notify_stake_change(update, 100).is_ok());
    // a drained account is removed
    let drained = AccountUpdate {
        pubkey: "acct".to_string(),
        lamports: 0,
        slot: 11,
        write_version: 2,
        stake: ParsedStake::NotDelegated,
    };
    assert!(store.notify_stake_change(drained, 100).is_ok());
    // unreadable stake data is rejected
    let bad = AccountUpdate {
        pubkey: "bad".to_string(),
        lamports: 5,
        slot: 12,
        write_version: 3,
        stake: ParsedStake::Unreadable,
    };
    assert_eq!(store.notify_stake_change(bad, 100), Err(StakeError::UnreadableAccount));
    let content = store.take_stakestore().unwrap();
    assert!(content.stakes.get(&"acct".to_string()).is_none());
    assert!(content.stakes.get(&"bad".to_string()).is_none());
}

#[test]
fn program_accounts_fold_into_bare_map() {
    let mut map = StakeMap::new(8);
    let list = vec![
        AccountUpdate {
            pubkey: "one".to_string(),
            lamports: 11,
            slot: 0,
            write_version: 0,
            stake: ParsedStake::Delegated(delegation("v1", 11)),
        },
        AccountUpdate {
            pubkey: "skip".to_string(),
            lamports: 12,
            slot: 0,
            write_version: 0,
            stake: ParsedStake::NotDelegated,
        },
        AccountUpdate {
            pubkey: "bad".to_string(),
            lamports: 13,
            slot: 0,
            write_version: 0,
            stake: ParsedStake::Unreadable,
        },
        AccountUpdate {
            pubkey: "two".to_string(),
            lamports: 14,
            slot: 0,
            write_version: 0,
            stake: ParsedStake::Delegated(delegation("v2", 14)),
        },
    ];
    merge_program_account_in_strake_map(&mut map, list, 77);
    assert_eq!(map.len(), 2);
    let one = map.get(&"one".to_string()).unwrap();
    assert_eq!(one.lamports, 11);
    assert_eq!(one.last_update_slot, 77);
    assert!(map.get(&"skip".to_string()).is_none());
    assert!(map.get(&"bad".to_string()).is_none());
    assert_eq!(map.get(&"two".to_string()).unwrap().lamports, 14);
}
