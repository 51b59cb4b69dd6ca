use crate::arith::{perbill_from_percent, spec_perbill_from_percent};
use crate::primitives::{
    AccountId, Balance, CurrencyId, LIQUID_CURRENCY_ID, STAKING_CURRENCY_ID,
};
use vstd::multiset::Multiset;
use vstd::prelude::*;

verus! {

broadcast use vstd::seq_lib::group_to_multiset_ensures;

/// A genesis balance: the account, the currency and the amount.
pub type BalanceEntry = (AccountId, CurrencyId, Balance);

/// Builds the genesis of the mock chain from a list of balances.
pub struct ExtBuilder {
    balances: Vec<BalanceEntry>,
}

impl View for ExtBuilder {
    type V = Seq<BalanceEntry>;

    closed spec fn view(&self) -> Seq<BalanceEntry> {
        self.balances@
    }
}

/// The balances every test starts from: users 1 to 6, controllers 10 to 40, stashes 11
/// to 41 and nominators 100 to 103.
pub open spec fn topup_list() -> Seq<BalanceEntry> {
    seq![
        (1, STAKING_CURRENCY_ID, 1000),
        (2, STAKING_CURRENCY_ID, 1000),
        (1, LIQUID_CURRENCY_ID, 1000),
        (2, LIQUID_CURRENCY_ID, 1000),
        (3, STAKING_CURRENCY_ID, 1000),
        (4, STAKING_CURRENCY_ID, 1000),
        (5, STAKING_CURRENCY_ID, 1000),
        (6, STAKING_CURRENCY_ID, 1000),
        (10, STAKING_CURRENCY_ID, 100),
        (20, STAKING_CURRENCY_ID, 100),
        (30, STAKING_CURRENCY_ID, 100),
        (40, STAKING_CURRENCY_ID, 100),
        (11, STAKING_CURRENCY_ID, 2000),
        (21, STAKING_CURRENCY_ID, 2000),
        (31, STAKING_CURRENCY_ID, 2000),
        (41, STAKING_CURRENCY_ID, 2000),
        (100, STAKING_CURRENCY_ID, 1000),
        (101, STAKING_CURRENCY_ID, 1000),
        (102, STAKING_CURRENCY_ID, 1000),
        (103, STAKING_CURRENCY_ID, 1000),
    ]
}

/// The balances of the native currency, as (account, amount), in the order they were given.
pub open spec fn native_balances_of(entries: Seq<BalanceEntry>) -> Seq<(AccountId, Balance)>
    decreases entries.len(),
{
    if entries.len() == 0 {
        Seq::empty()
    } else {
        let rest = native_balances_of(entries.drop_last());
        let e = entries.last();
        if e.1 == STAKING_CURRENCY_ID {
            rest.push((e.0, e.2))
        } else {
            rest
        }
    }
}

/// The balances of every other currency, in the order they were given.
pub open spec fn token_balances_of(entries: Seq<BalanceEntry>) -> Seq<BalanceEntry>
    decreases entries.len(),
{
    if entries.len() == 0 {
        Seq::empty()
    } else {
        let rest = token_balances_of(entries.drop_last());
        let e = entries.last();
        if e.1 != STAKING_CURRENCY_ID {
            rest.push(e)
        } else {
            rest
        }
    }
}

/// Native balances written back as balance entries of the staking currency.
pub open spec fn as_staking_entries(native: Seq<(AccountId, Balance)>) -> Seq<BalanceEntry> {
    native.map_values(|p: (AccountId, Balance)| (p.0, STAKING_CURRENCY_ID, p.1))
}

/// What a staker does at genesis.
#[derive(PartialEq, Eq, Debug)]
pub enum StakerStatus {
    /// Stands for election.
    Validator,
    /// Bonded, and neither validates nor nominates.
    Idle,
    /// Backs the listed validators.
    Nominator(Vec<AccountId>),
}

/// A staker's status with its nominations as a sequence.
pub enum StakerStatusView {
    Validator,
    Idle,
    Nominator(Seq<AccountId>),
}

impl View for StakerStatus {
    type V = StakerStatusView;

    open spec fn view(&self) -> StakerStatusView {
        match self {
            StakerStatus::Validator => StakerStatusView::Validator,
            StakerStatus::Idle => StakerStatusView::Idle,
            StakerStatus::Nominator(targets) => StakerStatusView::Nominator(targets@),
        }
    }
}

/// A staker bonded at genesis.
#[derive(Debug)]
pub struct Staker {
    pub stash: AccountId,
    pub controller: AccountId,
    pub stake: Balance,
    pub status: StakerStatus,
}

impl View for Staker {
    type V = (AccountId, AccountId, Balance, StakerStatusView);

    open spec fn view(&self) -> (AccountId, AccountId, Balance, StakerStatusView) {
        (self.stash, self.controller, self.stake, self.status@)
    }
}

/// The stakers of the mock chain: 11 and 21 will be elected when two are, 31 loses, 41
/// stays idle, and 100 nominates 11 and 21.
pub open spec fn genesis_stakers() -> Seq<(AccountId, AccountId, Balance, StakerStatusView)> {
    seq![
        (11, 10, 100, StakerStatusView::Validator),
        (21, 20, 100, StakerStatusView::Validator),
        (31, 30, 50, StakerStatusView::Validator),
        (41, 40, 100, StakerStatusView::Idle),
        (100, 100, 50, StakerStatusView::Nominator(seq![11, 21])),
    ]
}

/// One session key per staker: the stash is both the account and the validator, and its
/// number is the key.
pub open spec fn session_keys_of(stakers: Seq<(AccountId, AccountId, Balance, StakerStatusView)>) -> Seq<
    (AccountId, AccountId, u64),
> {
    stakers.map_values(|s: (AccountId, AccountId, Balance, StakerStatusView)| (s.0, s.0, s.0))
}

/// How many of `stakers` stand for election.
pub open spec fn validators_among(stakers: Seq<(AccountId, AccountId, Balance, StakerStatusView)>) -> nat
    decreases stakers.len(),
{
    if stakers.len() == 0 {
        0
    } else {
        validators_among(stakers.drop_last()) + if stakers.last().3 is Validator {
            1nat
        } else {
            0nat
        }
    }
}

/// Validators elected at genesis.
pub const VALIDATOR_COUNT: u32 = 2;

/// Share of a slash that goes to reporters, in percent.
pub const SLASH_REWARD_PERCENT: u32 = 10;

/// The genesis of the mock chain as plain values, ready to be written into storage.
pub struct Genesis {
    /// Native balances, held by the balances pallet.
    pub native_balances: Vec<(AccountId, Balance)>,
    /// Balances of every other currency, held by the tokens pallet.
    pub token_balances: Vec<BalanceEntry>,
    /// Stakers bonded at genesis.
    pub stakers: Vec<Staker>,
    pub validator_count: u32,
    pub minimum_validator_count: u32,
    pub invulnerables: Vec<AccountId>,
    /// Share of a slash that goes to reporters, in parts per billion.
    pub slash_reward_fraction: u32,
    pub min_nominator_bond: Balance,
    pub min_validator_bond: Balance,
    /// Session keys as (account, validator, key).
    pub session_keys: Vec<(AccountId, AccountId, u64)>,
}

impl Default for ExtBuilder {
    fn default() -> (builder: Self)
        ensures
            builder@ == topup_list(),
    {
        ExtBuilder { balances: Vec::new() }.topup_balances()
    }
}

impl ExtBuilder {
    /// Replaces the genesis balances with `balances`.
    pub fn balances(self, balances: Vec<BalanceEntry>) -> (builder: Self)
        ensures
            builder@ == balances@,
    {
        let mut builder = self;
        builder.balances = balances;
        builder
    }

    /// Replaces the genesis balances with the ones every test starts from.
    pub fn topup_balances(self) -> (builder: Self)
        ensures
            builder@ == topup_list(),
    {
        let v: Vec<BalanceEntry> = vec![
            (1, STAKING_CURRENCY_ID, 1000),
            (2, STAKING_CURRENCY_ID, 1000),
            (1, LIQUID_CURRENCY_ID, 1000),
            (2, LIQUID_CURRENCY_ID, 1000),
            (3, STAKING_CURRENCY_ID, 1000),
            (4, STAKING_CURRENCY_ID, 1000),
            (5, STAKING_CURRENCY_ID, 1000),
            (6, STAKING_CURRENCY_ID, 1000),
            // controllers
            (10, STAKING_CURRENCY_ID, 100),
            (20, STAKING_CURRENCY_ID, 100),
            (30, STAKING_CURRENCY_ID, 100),
            (40, STAKING_CURRENCY_ID, 100),
            // stashes
            (11, STAKING_CURRENCY_ID, 2000),
            (21, STAKING_CURRENCY_ID, 2000),
            (31, STAKING_CURRENCY_ID, 2000),
            (41, STAKING_CURRENCY_ID, 2000),
            // nominators
            (100, STAKING_CURRENCY_ID, 1000),
            (101, STAKING_CURRENCY_ID, 1000),
            (102, STAKING_CURRENCY_ID, 1000),
            (103, STAKING_CURRENCY_ID, 1000),
        ];
        assert(v@ =~= topup_list());
        self.balances(v)
    }

    /// Splits the balances between the balances pallet (the native currency, as
    /// (account, amount)) and the tokens pallet (every other currency), keeping their order.
    pub fn split_balances(&self) -> (split: (Vec<(AccountId, Balance)>, Vec<BalanceEntry>))
        ensures
            split.0@ == native_balances_of(self@),
            split.1@ == token_balances_of(self@),
    {
        let mut native: Vec<(AccountId, Balance)> = Vec::new();
        let mut tokens: Vec<BalanceEntry> = Vec::new();
        let n = self.balances.len();
        for i in 0..n
            invariant
                n == self.balances@.len(),
                native@ == native_balances_of(self.balances@.take(i as int)),
                tokens@ == token_balances_of(self.balances@.take(i as int)),
        {
            let e = self.balances[i];
            if e.1 == STAKING_CURRENCY_ID {
                native.push((e.0, e.2));
            } else {
                tokens.push(e);
            }
            assert(self.balances@.take(i + 1).drop_last() =~= self.balances@.take(i as int));
        }
        assert(self.balances@.take(n as int) =~= self.balances@);
        (native, tokens)
    }

    /// The genesis of the mock chain: the balances split between the two currency
    /// pallets, the stakers, the staking parameters with both minimum bonds at
    /// `existential_deposit`, and one session key per staker.
    pub fn build(self, existential_deposit: Balance) -> (genesis: Genesis)
        ensures
            genesis.native_balances@ == native_balances_of(self@),
            genesis.token_balances@ == token_balances_of(self@),
            genesis.stakers@.map_values(|s: Staker| s@) == genesis_stakers(),
            genesis.validator_count == VALIDATOR_COUNT,
            genesis.minimum_validator_count == 0,
            genesis.invulnerables@ == Seq::<AccountId>::empty(),
            genesis.slash_reward_fraction == spec_perbill_from_percent(SLASH_REWARD_PERCENT),
            genesis.min_nominator_bond == existential_deposit,
            genesis.min_validator_bond == existential_deposit,
            genesis.session_keys@ == session_keys_of(genesis_stakers()),
    {
        let (native_balances, token_balances) = self.split_balances();
        let stakers = genesis_staker_list();
        let session_keys = session_keys(&stakers);
        Genesis {
            native_balances,
            token_balances,
            stakers,
            validator_count: VALIDATOR_COUNT,
            minimum_validator_count: 0,
            invulnerables: Vec::new(),
            slash_reward_fraction: perbill_from_percent(SLASH_REWARD_PERCENT),
            min_nominator_bond: existential_deposit,
            min_validator_bond: existential_deposit,
            session_keys,
        }
    }
}

/// The stakers of the mock chain, as (stash, controller, stake, status).
fn genesis_staker_list() -> (stakers: Vec<Staker>)
    ensures
        stakers@.map_values(|s: Staker| s@) == genesis_stakers(),
{
    let stakers = vec![
        Staker { stash: 11, controller: 10, stake: 100, status: StakerStatus::Validator },
        Staker { stash: 21, controller: 20, stake: 100, status: StakerStatus::Validator },
        Staker { stash: 31, controller: 30, stake: 50, status: StakerStatus::Validator },
        Staker { stash: 41, controller: 40, stake: 100, status: StakerStatus::Idle },
        Staker { stash: 100, controller: 100, stake: 50, status: StakerStatus::Nominator(vec![11, 21]) },
    ];
    assert(stakers@.map_values(|s: Staker| s@) =~= genesis_stakers());
    stakers
}

/// One session key per staker, in the stakers' order: (stash, stash, stash).
pub fn session_keys(stakers: &Vec<Staker>) -> (keys: Vec<(AccountId, AccountId, u64)>)
    ensures
        keys@ == session_keys_of(stakers@.map_values(|s: Staker| s@)),
{
    let mut keys: Vec<(AccountId, AccountId, u64)> = Vec::new();
    for i in 0..stakers.len()
        invariant
            keys@ == session_keys_of(stakers@.map_values(|s: Staker| s@).take(i as int)),
    {
        let id = stakers[i].stash;
        keys.push((id, id, id));
        assert(keys@ =~= session_keys_of(stakers@.map_values(|s: Staker| s@).take(i + 1)));
    }
    assert(stakers@.map_values(|s: Staker| s@).take(stakers.len() as int) =~= stakers@.map_values(
        |s: Staker| s@,
    ));
    keys
}

} // verus!

verus! {

/// Splitting the genesis balances loses and duplicates nothing: every entry goes to
/// exactly one pallet, the native ones to the balances pallet (without their currency)
/// and all others to the tokens pallet.
pub proof fn split_is_partition(entries: Seq<BalanceEntry>)
    ensures
        native_balances_of(entries).len() + token_balances_of(entries).len() == entries.len(),
        entries.to_multiset() == as_staking_entries(native_balances_of(entries)).to_multiset().add(
            token_balances_of(entries).to_multiset(),
        ),
        forall|i: int|
            0 <= i < token_balances_of(entries).len() ==> (#[trigger] token_balances_of(
                entries,
            )[i]).1 != STAKING_CURRENCY_ID,
    decreases entries.len(),
{
    if entries.len() == 0 {
        assert(entries.to_multiset() =~= Multiset::empty());
        assert(as_staking_entries(native_balances_of(entries)) =~= Seq::empty());
        assert(token_balances_of(entries) =~= Seq::empty());
    } else {
        let rest = entries.drop_last();
        let e = entries.last();
        split_is_partition(rest);
        assert(entries =~= rest.push(e));
        let native = native_balances_of(rest);
        let tokens = token_balances_of(rest);
        if e.1 == STAKING_CURRENCY_ID {
            assert(as_staking_entries(native.push((e.0, e.2))) =~= as_staking_entries(native).push(
                e,
            ));
        }
        assert(entries.to_multiset() == rest.to_multiset().insert(e));
    }
}

/// Splitting works entry by entry and keeps the order: a native entry becomes its
/// (account, amount) on the balances side and nothing on the tokens side, any other entry
/// goes unchanged to the tokens side, and splitting one list after another gives the two
/// splits one after the other.
pub proof fn split_is_ordered(a: Seq<BalanceEntry>, b: Seq<BalanceEntry>, e: BalanceEntry)
    ensures
        native_balances_of(a + b) == native_balances_of(a) + native_balances_of(b),
        token_balances_of(a + b) == token_balances_of(a) + token_balances_of(b),
        e.1 == STAKING_CURRENCY_ID ==> native_balances_of(seq![e]) == seq![(e.0, e.2)]
            && token_balances_of(seq![e]) == Seq::<BalanceEntry>::empty(),
        e.1 != STAKING_CURRENCY_ID ==> native_balances_of(seq![e]) == Seq::<(AccountId, Balance)>::empty()
            && token_balances_of(seq![e]) == seq![e],
    decreases b.len(),
{
    let single = seq![e];
    assert(single.drop_last() =~= Seq::<BalanceEntry>::empty());
    assert(single.last() == e);
    assert(native_balances_of(single.drop_last()) =~= Seq::<(AccountId, Balance)>::empty());
    assert(token_balances_of(single.drop_last()) =~= Seq::<BalanceEntry>::empty());
    assert(native_balances_of(single) =~= (if e.1 == STAKING_CURRENCY_ID {
        seq![(e.0, e.2)]
    } else {
        Seq::empty()
    }));
    assert(token_balances_of(single) =~= (if e.1 != STAKING_CURRENCY_ID {
        seq![e]
    } else {
        Seq::empty()
    }));
    if b.len() == 0 {
        assert(a + b =~= a);
        assert(native_balances_of(b) =~= Seq::<(AccountId, Balance)>::empty());
        assert(token_balances_of(b) =~= Seq::<BalanceEntry>::empty());
        assert(native_balances_of(a) + native_balances_of(b) =~= native_balances_of(a));
        assert(token_balances_of(a) + token_balances_of(b) =~= token_balances_of(a));
    } else {
        split_is_ordered(a, b.drop_last(), e);
        assert((a + b).drop_last() =~= a + b.drop_last());
        assert((a + b).last() == b.last());
        assert(native_balances_of(a + b) =~= native_balances_of(a) + native_balances_of(b));
        assert(token_balances_of(a + b) =~= token_balances_of(a) + token_balances_of(b));
    }
}

/// Each staker gets exactly one session key, in the stakers' order, with its stash as
/// the account, the validator and the key.
pub proof fn session_keys_follow_stakers(stakers: Seq<(AccountId, AccountId, Balance, StakerStatusView)>)
    ensures
        session_keys_of(stakers).len() == stakers.len(),
        forall|i: int|
            0 <= i < stakers.len() ==> #[trigger] session_keys_of(stakers)[i] == (
                stakers[i].0,
                stakers[i].0,
                stakers[i].0,
            ),
{
}

/// The mock chain's stakers are consistent: their stashes are distinct, everything a
/// nominator backs is a validator among them, and at least as many of them validate as
/// are to be elected.
pub proof fn genesis_stakers_consistent()
    ensures
        forall|i: int, j: int|
            0 <= i < j < genesis_stakers().len() ==> #[trigger] genesis_stakers()[i].0
                != #[trigger] genesis_stakers()[j].0,
        forall|i: int, k: int|
            #![trigger genesis_stakers()[i], genesis_stakers()[i].3->Nominator_0[k]]
            0 <= i < genesis_stakers().len() && genesis_stakers()[i].3 is Nominator && 0 <= k
                < genesis_stakers()[i].3->Nominator_0.len() ==> exists|j: int|
                0 <= j < genesis_stakers().len() && #[trigger] genesis_stakers()[j].3
                    is Validator && genesis_stakers()[j].0 == genesis_stakers()[i].3->Nominator_0[k],
        validators_among(genesis_stakers()) >= VALIDATOR_COUNT,
{
    let s = genesis_stakers();
    assert forall|i: int, k: int|
        #![trigger s[i], s[i].3->Nominator_0[k]]
        0 <= i < s.len() && s[i].3 is Nominator && 0 <= k < s[i].3->Nominator_0.len() implies exists|j: int|
        0 <= j < s.len() && #[trigger] s[j].3 is Validator && s[j].0 == s[i].3->Nominator_0[k] by {
        assert(i == 4);
        if k == 0 {
            assert(s[0].3 is Validator);
        } else {
            assert(s[1].3 is Validator);
        }
    }
    reveal_with_fuel(validators_among, 6);
}

/// A native entry of the genesis balances reaches the balances pallet.
proof fn lemma_native_entry_kept(entries: Seq<BalanceEntry>, j: int)
    requires
        0 <= j < entries.len(),
        entries[j].1 == STAKING_CURRENCY_ID,
    ensures
        native_balances_of(entries).contains((entries[j].0, entries[j].2)),
    decreases entries.len(),
{
    let rest = entries.drop_last();
    if j < entries.len() - 1 {
        lemma_native_entry_kept(rest, j);
        let w = native_balances_of(rest).index_of((entries[j].0, entries[j].2));
        assert(native_balances_of(entries)[w] == (entries[j].0, entries[j].2));
    } else {
        let native = native_balances_of(entries);
        assert(native[native.len() - 1] == (entries[j].0, entries[j].2));
    }
}

/// With the balances every test starts from, each staker's stash holds at least its
/// stake in the native currency, so every genesis bond can be made.
pub proof fn default_stashes_cover_stakes()
    ensures
        forall|i: int|
            #![trigger genesis_stakers()[i]]
            0 <= i < genesis_stakers().len() ==> exists|b: Balance|
                #![trigger native_balances_of(topup_list()).contains((genesis_stakers()[i].0, b))]
                native_balances_of(topup_list()).contains((genesis_stakers()[i].0, b)) && b
                    >= genesis_stakers()[i].2,
{
    let t = topup_list();
    let s = genesis_stakers();
    lemma_native_entry_kept(t, 12);
    lemma_native_entry_kept(t, 13);
    lemma_native_entry_kept(t, 14);
    lemma_native_entry_kept(t, 15);
    lemma_native_entry_kept(t, 16);
    assert forall|i: int| #![trigger s[i]] 0 <= i < s.len() implies exists|b: Balance|
        #![trigger native_balances_of(t).contains((s[i].0, b))]
        native_balances_of(t).contains((s[i].0, b)) && b >= s[i].2 by {
        let j = if i < 4 { 12 + i } else { 16 };
        assert(t[j].0 == s[i].0 && t[j].2 >= s[i].2);
    }
}

} // verus!
