//! The stake map and its hand-off store: streamed stake account updates
//! land in a map keyed by account pubkey, with per-account freshness
//! decided by the update slot, while epoch-boundary consumers take the
//! whole map out through a `TakableMap` and merge it back later.
use vstd::prelude::*;
use crate::Slot;
use crate::takable::TakableContent;
use crate::takable::TakableError;
use crate::takable::TakableMap;
use crate::takable::spec_apply_all;

verus! {

/// A stake delegation as the gateway reads it.
pub struct StakeDelegation {
    pub voter_pubkey: String,
    pub stake: u64,
    pub activation_epoch: u64,
    pub deactivation_epoch: u64,
}

/// Spec-level image of a `StakeDelegation`.
pub ghost struct StakeDelegationView {
    pub voter_pubkey: Seq<char>,
    pub stake: u64,
    pub activation_epoch: u64,
    pub deactivation_epoch: u64,
}

impl View for StakeDelegation {
    type V = StakeDelegationView;

    open spec fn view(&self) -> StakeDelegationView {
        StakeDelegationView {
            voter_pubkey: self.voter_pubkey@,
            stake: self.stake,
            activation_epoch: self.activation_epoch,
            deactivation_epoch: self.deactivation_epoch,
        }
    }
}

/// One stored stake account.
pub struct StoredStake {
    pub pubkey: String,
    pub lamports: u64,
    pub stake: StakeDelegation,
    pub last_update_slot: Slot,
    pub write_version: u64,
}

/// Spec-level image of a `StoredStake`.
pub ghost struct StoredStakeView {
    pub pubkey: Seq<char>,
    pub lamports: u64,
    pub stake: StakeDelegationView,
    pub last_update_slot: Slot,
    pub write_version: u64,
}

impl View for StoredStake {
    type V = StoredStakeView;

    open spec fn view(&self) -> StoredStakeView {
        StoredStakeView {
            pubkey: self.pubkey@,
            lamports: self.lamports,
            stake: self.stake@,
            last_update_slot: self.last_update_slot,
            write_version: self.write_version,
        }
    }
}

impl DeepView for StoredStake {
    type V = StoredStakeView;

    open spec fn deep_view(&self) -> StoredStakeView {
        self.view()
    }
}

/// One point of the chain's stake history.
#[derive(Clone, Copy, Debug, PartialEq, Eq, Structural)]
pub struct StakeHistoryEntry {
    pub epoch: u64,
    pub effective: u64,
    pub activating: u64,
    pub deactivating: u64,
}

/// Index of the first account with this pubkey, or -1.
pub open spec fn find_pk(m: Seq<StoredStakeView>, pk: Seq<char>) -> int
    decreases m.len(),
{
    if m.len() == 0 {
        -1
    } else if m[0].pubkey == pk {
        0
    } else if find_pk(m.drop_first(), pk) == -1 {
        -1
    } else {
        find_pk(m.drop_first(), pk) + 1
    }
}

/// An account holds this pubkey.
pub open spec fn contains_pk(m: Seq<StoredStakeView>, pk: Seq<char>) -> bool {
    find_pk(m, pk) >= 0
}

/// The stored stake under this pubkey, if any.
pub open spec fn lookup_pk(m: Seq<StoredStakeView>, pk: Seq<char>) -> Option<StoredStakeView> {
    if contains_pk(m, pk) {
        Some(m[find_pk(m, pk)])
    } else {
        None
    }
}

/// What `find_pk` returns is the first match.
pub proof fn lemma_find_pk_props(m: Seq<StoredStakeView>, pk: Seq<char>)
    ensures
        find_pk(m, pk) == -1 ==> forall|j: int| 0 <= j < m.len() ==> m[j].pubkey != pk,
        find_pk(m, pk) != -1 ==> {
            &&& 0 <= find_pk(m, pk) < m.len()
            &&& m[find_pk(m, pk)].pubkey == pk
            &&& forall|j: int| 0 <= j < find_pk(m, pk) ==> m[j].pubkey != pk
        },
    decreases m.len(),
{
    if m.len() > 0 && m[0].pubkey != pk {
        lemma_find_pk_props(m.drop_first(), pk);
        let r = find_pk(m.drop_first(), pk);
        if r == -1 {
            assert forall|j: int| 0 <= j < m.len() implies m[j].pubkey != pk by {
                if j > 0 {
                    assert(m.drop_first()[j - 1] == m[j]);
                }
            }
        } else {
            assert(find_pk(m, pk) == r + 1);
            assert(m.drop_first()[r] == m[r + 1]);
            assert forall|j: int| 0 <= j < r + 1 implies m[j].pubkey != pk by {
                if j > 0 {
                    assert(m.drop_first()[j - 1] == m[j]);
                }
            }
        }
    }
}

/// A match at index `i`, with none earlier, is what `find_pk` finds.
pub proof fn lemma_find_pk_at(m: Seq<StoredStakeView>, pk: Seq<char>, i: int)
    requires
        0 <= i < m.len(),
        m[i].pubkey == pk,
        forall|j: int| 0 <= j < i ==> m[j].pubkey != pk,
    ensures
        find_pk(m, pk) == i,
    decreases m.len(),
{
    if i > 0 {
        assert(m.drop_first()[i - 1] == m[i]);
        assert(forall|j: int| 0 <= j < i - 1 ==> m.drop_first()[j] == m[j + 1]);
        lemma_find_pk_at(m.drop_first(), pk, i - 1);
    }
}

/// What a stake notification does to the map: insert a new account, or
/// replace a present one unless the stored state is newer (several
/// instructions can land in one slot, so an equal slot also replaces).
pub open spec fn spec_notify(m: Seq<StoredStakeView>, s: StoredStakeView) -> Seq<StoredStakeView> {
    if contains_pk(m, s.pubkey) {
        if m[find_pk(m, s.pubkey)].last_update_slot <= s.last_update_slot {
            m.update(find_pk(m, s.pubkey), s)
        } else {
            m
        }
    } else {
        m.push(s)
    }
}

/// What a removal does to the map: drop the account unless the stored
/// state is newer than the removal.
pub open spec fn spec_remove(m: Seq<StoredStakeView>, pk: Seq<char>, update_slot: Slot) -> Seq<
    StoredStakeView,
> {
    if contains_pk(m, pk) && m[find_pk(m, pk)].last_update_slot <= update_slot {
        m.remove(find_pk(m, pk))
    } else {
        m
    }
}

/// A deferred update to the stake map.
pub enum StakeAction {
    Notify { stake: StoredStake },
    Remove(String, Slot),
    Noop,
}

/// Spec-level image of a `StakeAction`.
pub ghost enum StakeActionView {
    Notify { stake: StoredStakeView },
    Remove(Seq<char>, Slot),
    Noop,
}

impl View for StakeAction {
    type V = StakeActionView;

    open spec fn view(&self) -> StakeActionView {
        match self {
            StakeAction::Notify { stake } => StakeActionView::Notify { stake: stake@ },
            StakeAction::Remove(pk, slot) => StakeActionView::Remove(pk@, *slot),
            StakeAction::Noop => StakeActionView::Noop,
        }
    }
}

impl StakeAction {
    /// The slot this action carries: what decides whether it may still be
    /// applied before the current epoch boundary.
    pub fn get_update_slot(&self) -> (r: Slot)
        ensures
            r == self@.spec_update_slot(),
    {
        match self {
            StakeAction::Notify { stake } => stake.last_update_slot,
            StakeAction::Remove(_, slot) => *slot,
            StakeAction::Noop => 0,
        }
    }
}

impl StakeActionView {
    /// Spec twin of `StakeAction::get_update_slot`.
    pub open spec fn spec_update_slot(self) -> Slot {
        match self {
            StakeActionView::Notify { stake } => stake.last_update_slot,
            StakeActionView::Remove(_, slot) => slot,
            StakeActionView::Noop => 0,
        }
    }
}

/// The map of stake accounts, keyed by account pubkey.
pub struct StakeMap {
    accounts: Vec<StoredStake>,
}

impl View for StakeMap {
    type V = Seq<StoredStakeView>;

    closed spec fn view(&self) -> Seq<StoredStakeView> {
        self.accounts.deep_view()
    }
}

impl StakeMap {
    /// An empty map ready for about `capacity` accounts.
    pub fn new(capacity: usize) -> (r: StakeMap)
        ensures
            r@ == Seq::<StoredStakeView>::empty(),
    {
        let r = StakeMap { accounts: Vec::with_capacity(capacity) };
        proof {
            assert(r@ =~= Seq::<StoredStakeView>::empty());
        }
        r
    }

    /// How many accounts the map holds.
    pub fn len(&self) -> (r: usize)
        ensures
            r == self@.len(),
    {
        self.accounts.len()
    }

    /// The stored stake of one account, if present.
    pub fn get(&self, pubkey: &String) -> (r: Option<&StoredStake>)
        ensures
            match r {
                Some(s) => lookup_pk(self@, pubkey@) == Some(s@),
                None => lookup_pk(self@, pubkey@) is None,
            },
    {
        let n = self.accounts.len();
        let mut i: usize = 0;
        while i < n
            invariant
                n == self.accounts.len(),
                0 <= i <= n,
                forall|j: int| 0 <= j < i ==> self@[j].pubkey != pubkey@,
            decreases n - i,
        {
            if self.accounts[i].pubkey == *pubkey {
                proof {
                    lemma_find_pk_at(self@, pubkey@, i as int);
                }
                return Some(&self.accounts[i]);
            }
            i = i + 1;
        }
        proof {
            lemma_find_pk_props(self@, pubkey@);
            if find_pk(self@, pubkey@) != -1 {
                assert(self@[find_pk(self@, pubkey@)].pubkey == pubkey@);
            }
        }
        None
    }

    /// Record a stake notification, newest slot winning.
    pub fn notify_stake(&mut self, stake: StoredStake)
        ensures
            final(self)@ == spec_notify(old(self)@, stake@),
    {
        let ghost pre = self@;
        let ghost sv = stake@;
        let n = self.accounts.len();
        let mut i: usize = 0;
        while i < n
            invariant
                self == old(self),
                n == self.accounts.len(),
                pre == old(self)@,
                sv == stake@,
                0 <= i <= n,
                forall|j: int| 0 <= j < i ==> pre[j].pubkey != sv.pubkey,
            decreases n - i,
        {
            if self.accounts[i].pubkey == stake.pubkey {
                proof {
                    lemma_find_pk_at(pre, sv.pubkey, i as int);
                }
                if self.accounts[i].last_update_slot <= stake.last_update_slot {
                    self.accounts.set(i, stake);
                    proof {
                        assert(self@ =~= pre.update(i as int, sv));
                    }
                }
                return ;
            }
            i = i + 1;
        }
        proof {
            lemma_find_pk_props(pre, sv.pubkey);
            if find_pk(pre, sv.pubkey) != -1 {
                assert(pre[find_pk(pre, sv.pubkey)].pubkey == sv.pubkey);
            }
        }
        self.accounts.push(stake);
        proof {
            assert(self@ =~= pre.push(sv));
        }
    }

    /// Record a stake account removal, unless the stored state is newer.
    pub fn remove_stake(&mut self, pubkey: &String, update_slot: Slot)
        ensures
            final(self)@ == spec_remove(old(self)@, pubkey@, update_slot),
    {
        let ghost pre = self@;
        let n = self.accounts.len();
        let mut i: usize = 0;
        while i < n
            invariant
                self == old(self),
                n == self.accounts.len(),
                pre == old(self)@,
                0 <= i <= n,
                forall|j: int| 0 <= j < i ==> pre[j].pubkey != pubkey@,
            decreases n - i,
        {
            if self.accounts[i].pubkey == *pubkey {
                proof {
                    lemma_find_pk_at(pre, pubkey@, i as int);
                }
                if self.accounts[i].last_update_slot <= update_slot {
                    self.accounts.remove(i);
                    proof {
                        assert(self@ =~= pre.remove(i as int));
                    }
                }
                return ;
            }
            i = i + 1;
        }
        proof {
            lemma_find_pk_props(pre, pubkey@);
            if find_pk(pre, pubkey@) != -1 {
                assert(pre[find_pk(pre, pubkey@)].pubkey == pubkey@);
            }
        }
    }

    /// Apply one deferred action.
    pub fn process_stake_action(&mut self, action: StakeAction)
        ensures
            final(self)@ == spec_process_action(old(self)@, action@),
    {
        match action {
            StakeAction::Notify { stake } => self.notify_stake(stake),
            StakeAction::Remove(pubkey, slot) => self.remove_stake(&pubkey, slot),
            StakeAction::Noop => {},
        }
    }
}

/// What one action does to the map.
pub open spec fn spec_process_action(m: Seq<StoredStakeView>, a: StakeActionView) -> Seq<
    StoredStakeView,
> {
    match a {
        StakeActionView::Notify { stake } => spec_notify(m, stake),
        StakeActionView::Remove(pk, slot) => spec_remove(m, pk, slot),
        StakeActionView::Noop => m,
    }
}

/// The state handed off at epoch boundaries: the stake map, and the
/// chain's stake history once one was received.
pub struct StakeContent {
    pub stakes: StakeMap,
    pub history: Option<Vec<StakeHistoryEntry>>,
}

/// Spec-level image of a `StakeContent`.
pub ghost struct StakeContentView {
    pub stakes: Seq<StoredStakeView>,
    pub history: Option<Seq<StakeHistoryEntry>>,
}

impl View for StakeContent {
    type V = StakeContentView;

    open spec fn view(&self) -> StakeContentView {
        StakeContentView {
            stakes: self.stakes@,
            history: match self.history {
                Some(ref h) => Some(h@),
                None => None,
            },
        }
    }
}

impl TakableContent<StakeAction> for StakeContent {
    open spec fn spec_apply(pre: StakeContentView, a: StakeAction) -> StakeContentView {
        StakeContentView { stakes: spec_process_action(pre.stakes, a@), ..pre }
    }

    fn add_value(&mut self, val: StakeAction) {
        self.stakes.process_stake_action(val);
    }
}

/// A streamed stake account update, already parsed down to plain values.
pub struct AccountUpdate {
    pub pubkey: String,
    pub lamports: u64,
    pub slot: Slot,
    pub write_version: u64,
    pub stake: ParsedStake,
}

/// What the account's data said about a delegation.
pub enum ParsedStake {
    Delegated(StakeDelegation),
    NotDelegated,
    Unreadable,
}

/// Why a stake change was rejected.
#[derive(Clone, Copy, Debug, PartialEq, Eq, Structural)]
pub enum StakeError {
    UnreadableAccount,
}

/// The stake store: the takable stake map plus its deferred-action queue.
pub struct StakeStore {
    stakes: TakableMap<StakeAction, StakeContent>,
}

impl StakeStore {
    /// The content while populated; `None` while taken.
    pub closed spec fn spec_content(self) -> Option<StakeContentView> {
        self.stakes.spec_content()
    }

    /// The queued actions, oldest first, as views.
    pub closed spec fn spec_updates(self) -> Seq<StakeActionView> {
        self.stakes.spec_updates().map_values(|a: StakeAction| a@)
    }

    /// A populated store with an empty map and no history.
    pub fn new(capacity: usize) -> (r: StakeStore)
        ensures
            r.spec_content() == Some(
                StakeContentView { stakes: Seq::<StoredStakeView>::empty(), history: None },
            ),
            r.spec_updates() == Seq::<StakeActionView>::empty(),
    {
        let content = StakeContent { stakes: StakeMap::new(capacity), history: None };
        let r = StakeStore { stakes: TakableMap::new(content) };
        proof {
            assert(r.spec_updates() =~= Seq::<StakeActionView>::empty());
        }
        r
    }

    /// Hand one action to the store: applied at once while the map is
    /// populated and the action's slot is not past the epoch boundary;
    /// queued otherwise.
    pub fn notify_stake_action(&mut self, action: StakeAction, current_end_epoch_slot: Slot)
        ensures
            ({
                let applied = action@.spec_update_slot() <= current_end_epoch_slot
                    && old(self).spec_content() is Some;
                if applied {
                    &&& final(self).spec_content() == Some(
                        StakeContentView {
                            stakes: spec_process_action(
                                old(self).spec_content().unwrap().stakes,
                                action@,
                            ),
                            ..old(self).spec_content().unwrap()
                        },
                    )
                    &&& final(self).spec_updates() == old(self).spec_updates()
                } else {
                    &&& final(self).spec_content() == old(self).spec_content()
                    &&& final(self).spec_updates() == old(self).spec_updates().push(action@)
                }
            }),
    {
        let ghost av = action@;
        let ghost pre_q = self.stakes.spec_updates();
        let update_slot = action.get_update_slot();
        self.stakes.add_value(action, update_slot <= current_end_epoch_slot);
        proof {
            if !(av.spec_update_slot() <= current_end_epoch_slot
                && old(self).spec_content() is Some) {
                assert(self.spec_updates() =~= old(self).spec_updates().push(av));
            }
        }
    }

    /// Fold one streamed account change into the store: a drained account
    /// becomes a removal, a delegated account a notification; an account
    /// whose stake data cannot be read is rejected.
    pub fn notify_stake_change(
        &mut self,
        account: AccountUpdate,
        current_end_epoch_slot: Slot,
    ) -> (r: Result<(), StakeError>)
        ensures
            account.lamports == 0 ==> r is Ok && spec_action_applied(
                *old(self),
                *final(self),
                StakeActionView::Remove(account.pubkey@, account.slot),
                current_end_epoch_slot,
            ),
            account.lamports != 0 ==> match account.stake {
                ParsedStake::Delegated(d) => r is Ok && spec_action_applied(
                    *old(self),
                    *final(self),
                    StakeActionView::Notify {
                        stake: StoredStakeView {
                            pubkey: account.pubkey@,
                            lamports: account.lamports,
                            stake: d@,
                            last_update_slot: account.slot,
                            write_version: account.write_version,
                        },
                    },
                    current_end_epoch_slot,
                ),
                ParsedStake::NotDelegated => r is Ok && *final(self) == *old(self),
                ParsedStake::Unreadable => r == Err::<(), StakeError>(
                    StakeError::UnreadableAccount,
                ) && *final(self) == *old(self),
            },
    {
        if account.lamports == 0 {
            self.notify_stake_action(
                StakeAction::Remove(account.pubkey, account.slot),
                current_end_epoch_slot,
            );
            Ok(())
        } else {
            match account.stake {
                ParsedStake::Delegated(d) => {
                    let stake = StoredStake {
                        pubkey: account.pubkey,
                        lamports: account.lamports,
                        stake: d,
                        last_update_slot: account.slot,
                        write_version: account.write_version,
                    };
                    self.notify_stake_action(
                        StakeAction::Notify { stake },
                        current_end_epoch_slot,
                    );
                    Ok(())
                },
                ParsedStake::NotDelegated => Ok(()),
                ParsedStake::Unreadable => Err(StakeError::UnreadableAccount),
            }
        }
    }

    /// Move the stake map and history out for offline work.
    pub fn take_stakestore(&mut self) -> (r: Result<StakeContent, TakableError>)
        ensures
            r is Ok <==> old(self).spec_content() is Some,
            match r {
                Ok(c) => {
                    &&& old(self).spec_content() == Some(c@)
                    &&& final(self).spec_content() is None
                    &&& final(self).spec_updates() == old(self).spec_updates()
                },
                Err(_) => *final(self) == *old(self),
            },
    {
        self.stakes.take()
    }

    /// Merge the stake map and history back, replaying every queued action
    /// in insertion order.
    pub fn merge_stakestore(&mut self, content: StakeContent) -> (r: Result<(), TakableError>)
        ensures
            r is Ok <==> old(self).spec_content() is None,
            match r {
                Ok(_) => {
                    &&& final(self).spec_content() == Some(
                        spec_apply_all_views(content@, old(self).spec_updates()),
                    )
                    &&& final(self).spec_updates() == Seq::<StakeActionView>::empty()
                },
                Err(_) => *final(self) == *old(self),
            },
    {
        let ghost q = self.stakes.spec_updates();
        let ghost c0 = content@;
        let r = self.stakes.merge(content);
        proof {
            if r is Ok {
                lemma_apply_all_views(c0, q);
                assert(self.spec_updates() =~= Seq::<StakeActionView>::empty());
            }
        }
        r
    }
}

/// One action either applied to the content or appended to the queue,
/// depending on its slot and the store's state.
pub open spec fn spec_action_applied(
    pre: StakeStore,
    post: StakeStore,
    av: StakeActionView,
    current_end_epoch_slot: Slot,
) -> bool {
    if av.spec_update_slot() <= current_end_epoch_slot && pre.spec_content() is Some {
        &&& post.spec_content() == Some(
            StakeContentView {
                stakes: spec_process_action(pre.spec_content().unwrap().stakes, av),
                ..pre.spec_content().unwrap()
            },
        )
        &&& post.spec_updates() == pre.spec_updates()
    } else {
        &&& post.spec_content() == pre.spec_content()
        &&& post.spec_updates() == pre.spec_updates().push(av)
    }
}

/// All queued actions applied in order, on views.
pub open spec fn spec_apply_all_views(pre: StakeContentView, acts: Seq<StakeActionView>)
    -> StakeContentView
    decreases acts.len(),
{
    if acts.len() == 0 {
        pre
    } else {
        spec_apply_all_views(
            StakeContentView { stakes: spec_process_action(pre.stakes, acts[0]), ..pre },
            acts.drop_first(),
        )
    }
}

/// Replaying exec actions is replaying their views.
pub proof fn lemma_apply_all_views(pre: StakeContentView, acts: Seq<StakeAction>)
    ensures
        spec_apply_all::<StakeAction, StakeContent>(pre, acts)
            == spec_apply_all_views(pre, acts.map_values(|a: StakeAction| a@)),
    decreases acts.len(),
{
    let views = acts.map_values(|a: StakeAction| a@);
    if acts.len() == 0 {
        assert(views.len() == 0);
    } else {
        assert(views[0] == acts[0]@);
        assert(views.drop_first() =~= acts.drop_first().map_values(|a: StakeAction| a@));
        lemma_apply_all_views(
            StakeContentView { stakes: spec_process_action(pre.stakes, acts[0]@), ..pre },
            acts.drop_first(),
        );
    }
}

/// Fold a batch of program accounts into a bare stake map: every readable
/// delegated account becomes a notification at the batch's slot; drained,
/// undelegated and unreadable accounts are passed over.
pub fn merge_program_account_in_strake_map(
    stake_map: &mut StakeMap,
    stakes_list: Vec<AccountUpdate>,
    last_update_slot: Slot,
)
    ensures
        final(stake_map)@ == spec_merge_program_accounts(
            old(stake_map)@,
            stakes_list@,
            last_update_slot,
        ),
{
    let ghost pre = stake_map@;
    let ghost list = stakes_list@;
    let mut remaining = stakes_list;
    let ghost i: int = 0;
    while remaining.len() > 0
        invariant
            0 <= i,
            i + remaining@.len() == list.len(),
            remaining@ == list.skip(i),
            stake_map@ == spec_merge_program_accounts(pre, list.take(i), last_update_slot),
        decreases remaining@.len(),
    {
        let ghost done = list.take(i);
        let account = remaining.remove(0);
        proof {
            assert(account == list[i]);
            assert(remaining@ =~= list.skip(i + 1));
            assert(list.take(i + 1) =~= done.push(list[i]));
            lemma_merge_program_accounts_snoc(pre, done, list[i], last_update_slot);
        }
        match account.stake {
            ParsedStake::Delegated(d) => {
                let stake = StoredStake {
                    pubkey: account.pubkey,
                    lamports: account.lamports,
                    stake: d,
                    last_update_slot,
                    write_version: 0,
                };
                stake_map.notify_stake(stake);
            },
            ParsedStake::NotDelegated => {},
            ParsedStake::Unreadable => {},
        }
        proof {
            i = i + 1;
        }
    }
    proof {
        assert(list.take(list.len() as int) =~= list);
    }
}

/// What one program account contributes to the map.
pub open spec fn spec_merge_one(
    m: Seq<StoredStakeView>,
    account: AccountUpdate,
    last_update_slot: Slot,
) -> Seq<StoredStakeView> {
    match account.stake {
        ParsedStake::Delegated(d) => spec_notify(
            m,
            StoredStakeView {
                pubkey: account.pubkey@,
                lamports: account.lamports,
                stake: d@,
                last_update_slot,
                write_version: 0,
            },
        ),
        ParsedStake::NotDelegated => m,
        ParsedStake::Unreadable => m,
    }
}

/// The whole batch folded in, first account first.
pub open spec fn spec_merge_program_accounts(
    m: Seq<StoredStakeView>,
    list: Seq<AccountUpdate>,
    last_update_slot: Slot,
) -> Seq<StoredStakeView>
    decreases list.len(),
{
    if list.len() == 0 {
        m
    } else {
        spec_merge_program_accounts(
            spec_merge_one(m, list[0], last_update_slot),
            list.drop_first(),
            last_update_slot,
        )
    }
}

/// Folding one more account is one more contribution.
pub proof fn lemma_merge_program_accounts_snoc(
    m: Seq<StoredStakeView>,
    list: Seq<AccountUpdate>,
    account: AccountUpdate,
    last_update_slot: Slot,
)
    ensures
        spec_merge_program_accounts(m, list.push(account), last_update_slot)
            == spec_merge_one(
            spec_merge_program_accounts(m, list, last_update_slot),
            account,
            last_update_slot,
        ),
    decreases list.len(),
{
    if list.len() == 0 {
        assert(list.push(account)[0] == account);
        assert(list.push(account).drop_first() =~= Seq::<AccountUpdate>::empty());
        assert(spec_merge_program_accounts(m, list.push(account), last_update_slot)
            == spec_merge_program_accounts(
                spec_merge_one(m, account, last_update_slot),
                list.push(account).drop_first(),
                last_update_slot,
            ));
        assert(spec_merge_program_accounts(
            spec_merge_one(m, account, last_update_slot),
            Seq::<AccountUpdate>::empty(),
            last_update_slot,
        ) == spec_merge_one(m, account, last_update_slot));
        assert(spec_merge_program_accounts(m, list, last_update_slot) == m);
    } else {
        assert(list.push(account)[0] == list[0]);
        assert(list.push(account).drop_first() =~= list.drop_first().push(account));
        assert(spec_merge_program_accounts(m, list.push(account), last_update_slot)
            == spec_merge_program_accounts(
                spec_merge_one(m, list[0], last_update_slot),
                list.drop_first().push(account),
                last_update_slot,
            ));
        lemma_merge_program_accounts_snoc(
            spec_merge_one(m, list[0], last_update_slot),
            list.drop_first(),
            account,
            last_update_slot,
        );
        assert(spec_merge_program_accounts(m, list, last_update_slot)
            == spec_merge_program_accounts(
                spec_merge_one(m, list[0], last_update_slot),
                list.drop_first(),
                last_update_slot,
            ));
    }
}

} // verus!
