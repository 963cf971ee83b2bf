//! Caps on what players wager across games. Each player has a limit on a
//! single bet and a rolling limit on all bets of the last 24 hours.
//!
//! Game contracts ask `can_wager` before they accept a bet and call
//! `record_wager` after. The admin sets the defaults with `init` and gives
//! single players limits of their own with `set_player_override`, such as
//! raised ones, or none at all to shut a player out.

use vstd::prelude::*;

use crate::address::{Address, Key};
use crate::env::{bumped, Effect, Env};
use crate::table::Table;

verus! {

/// How long a bet counts against the daily limit, in seconds: one day.
pub const WINDOW_SECS: u64 = 86_400;

/// The daily limit that holds before `init`.
pub const FALLBACK_DAILY_LIMIT: i128 = 10_000;

/// The limit on a single bet that holds before `init`.
pub const FALLBACK_PER_BET_LIMIT: i128 = 1_000;

#[derive(Copy, Clone, Debug, Eq, PartialEq, PartialOrd, Ord)]
pub enum Error {
    AlreadyInitialized,
    NotInitialized,
    NotAuthorized,
    DailyLimitExceeded,
    PerBetLimitExceeded,
    InvalidAmount,
    Overflow,
}

impl Error {
    /// The number by which callers of the contract know the error.
    pub fn code(self) -> (code: u32)
        ensures
            code == match self {
                Error::AlreadyInitialized => 1u32,
                Error::NotInitialized => 2,
                Error::NotAuthorized => 3,
                Error::DailyLimitExceeded => 4,
                Error::PerBetLimitExceeded => 5,
                Error::InvalidAmount => 6,
                Error::Overflow => 7,
            },
    {
        match self {
            Error::AlreadyInitialized => 1,
            Error::NotInitialized => 2,
            Error::NotAuthorized => 3,
            Error::DailyLimitExceeded => 4,
            Error::PerBetLimitExceeded => 5,
            Error::InvalidAmount => 6,
            Error::Overflow => 7,
        }
    }
}

/// The names of the contract's ledger entries.
#[derive(Clone, Copy, Debug, Eq, PartialEq)]
pub enum DataKey {
    Admin,
    DefaultDailyLimit,
    DefaultPerBetLimit,
    PlayerOverride(Address),
    PlayerWindow(Address),
}

#[derive(Clone, Copy, Debug, Eq, PartialEq)]
pub struct LimitOverride {
    pub daily_limit: i128,
    pub per_bet_limit: i128,
}

/// A bet of a player, with the time at which it was recorded.
#[derive(Clone, Copy, Debug, Eq, PartialEq)]
pub struct Wager {
    pub ts: u64,
    pub amount: i128,
}

impl Wager {
    /// Less than a day has passed since the bet.
    pub open spec fn counts(self, now: u64) -> bool {
        now < self.ts + WINDOW_SECS
    }
}

/// What the bets add up to.
pub open spec fn total(bets: Seq<Wager>) -> int
    decreases bets.len(),
{
    if bets.len() == 0 {
        0
    } else {
        total(bets.drop_last()) + bets.last().amount
    }
}

/// The bets that still count.
pub open spec fn counting(bets: Seq<Wager>, now: u64) -> Seq<Wager> {
    bets.filter(|bet: Wager| bet.counts(now))
}

/// What the bets that still count add up to.
pub open spec fn counted(bets: Seq<Wager>, now: u64) -> int
    decreases bets.len(),
{
    if bets.len() == 0 {
        0
    } else {
        counted(bets.drop_last(), now) + if bets.last().counts(now) {
            bets.last().amount as int
        } else {
            0
        }
    }
}

/// Each bet is worth something, and together they can be counted.
pub open spec fn countable(bets: Seq<Wager>) -> bool {
    &&& forall|i: int| 0 <= i < bets.len() ==> (#[trigger] bets[i]).amount > 0
    &&& total(bets) <= i128::MAX
}

proof fn lemma_take(bets: Seq<Wager>, now: u64, n: int)
    requires
        0 <= n <= bets.len(),
        forall|i: int| 0 <= i < bets.len() ==> (#[trigger] bets[i]).amount > 0,
    ensures
        0 <= counted(bets.take(n), now) <= total(bets.take(n)) <= total(bets),
    decreases bets.len(),
{
    if n < bets.len() {
        let front = bets.drop_last();
        assert forall|i: int| 0 <= i < front.len() implies (#[trigger] front[i]).amount > 0 by {
            assert(front[i] == bets[i]);
        }
        lemma_take(front, now, n);
        assert(front.take(n) =~= bets.take(n));
        assert(bets[bets.len() - 1] == bets.last());
    } else {
        assert(bets.take(n) =~= bets);
        if n > 0 {
            let front = bets.drop_last();
            assert forall|i: int| 0 <= i < front.len() implies (#[trigger] front[i]).amount
                > 0 by {
                assert(front[i] == bets[i]);
            }
            lemma_take(front, now, n - 1);
            assert(front.take(n - 1) =~= front);
            assert(bets[bets.len() - 1] == bets.last());
        }
    }
}

/// Dropping bets that no longer count changes no total from then on.
proof fn lemma_counting(bets: Seq<Wager>, then: u64, now: u64)
    requires
        then <= now,
    ensures
        counted(counting(bets, then), now) == counted(bets, now),
        total(counting(bets, then)) == counted(bets, then),
        (forall|i: int| 0 <= i < bets.len() ==> (#[trigger] bets[i]).amount > 0) ==> (forall|i: int|
            0 <= i < counting(bets, then).len() ==> (#[trigger] counting(bets, then)[i]).amount
                > 0),
    decreases bets.len(),
{
    reveal(Seq::filter);
    if bets.len() > 0 {
        let front = bets.drop_last();
        lemma_counting(front, then, now);
        let kept = counting(front, then);
        if bets.last().counts(then) {
            assert(counting(bets, then) == kept.push(bets.last()));
            assert(kept.push(bets.last()).drop_last() =~= kept);
        }
        if forall|i: int| 0 <= i < bets.len() ==> (#[trigger] bets[i]).amount > 0 {
            assert forall|i: int| 0 <= i < front.len() implies (#[trigger] front[i]).amount
                > 0 by {
                assert(front[i] == bets[i]);
            }
            assert(bets[bets.len() - 1] == bets.last());
        }
    }
}

/// The bets of a player that may still count.
#[derive(Debug, Eq, PartialEq)]
pub struct PlayerWindowState {
    bets: Vec<Wager>,
}

impl View for PlayerWindowState {
    type V = Seq<Wager>;

    closed spec fn view(&self) -> Seq<Wager> {
        self.bets@
    }
}

impl PlayerWindowState {
    #[verifier::type_invariant]
    spec fn invariant_holds(self) -> bool {
        countable(self.bets@)
    }

    /// A window of these bets, if each is worth something and they can be counted.
    pub fn new(bets: Vec<Wager>) -> (r: Option<Self>)
        ensures
            match r {
                Some(window) => countable(bets@) && window@ == bets@,
                None => !countable(bets@),
            },
    {
        let mut sum: i128 = 0;
        let mut i: usize = 0;
        while i < bets.len()
            invariant
                i <= bets.len(),
                sum == total(bets@.take(i as int)),
                forall|j: int| 0 <= j < i ==> (#[trigger] bets@[j]).amount > 0,
            decreases bets.len() - i,
        {
            assert(bets@.take(i + 1).drop_last() =~= bets@.take(i as int));
            if bets[i].amount <= 0 {
                return None;
            }
            sum =
            match sum.checked_add(bets[i].amount) {
                Some(sum) => sum,
                None => {
                    proof {
                        if countable(bets@) {
                            lemma_take(bets@, 0, i as int);
                            lemma_take(bets@, 0, i + 1);
                        }
                    }
                    return None;
                },
            };
            i = i + 1;
        }
        assert(bets@.take(i as int) =~= bets@);
        Some(PlayerWindowState { bets })
    }

    /// The bets, in the order in which they were recorded.
    pub fn bets(&self) -> (bets: &Vec<Wager>)
        ensures
            bets@ == self@,
    {
        &self.bets
    }

    /// What the bets that still count add up to.
    pub fn wagered(&self, now: u64) -> (sum: i128)
        ensures
            sum == counted(self@, now),
            countable(self@),
    {
        proof {
            use_type_invariant(self);
        }
        let mut sum: i128 = 0;
        let mut i: usize = 0;
        while i < self.bets.len()
            invariant
                i <= self.bets.len(),
                countable(self.bets@),
                sum == counted(self.bets@.take(i as int), now),
            decreases self.bets.len() - i,
        {
            proof {
                lemma_take(self.bets@, now, i + 1);
            }
            assert(self.bets@.take(i + 1).drop_last() =~= self.bets@.take(i as int));
            if now.saturating_sub(self.bets[i].ts) < WINDOW_SECS {
                sum = sum + self.bets[i].amount;
            }
            i = i + 1;
        }
        assert(self.bets@.take(i as int) =~= self.bets@);
        sum
    }

    /// One bet.
    fn first(now: u64, amount: i128) -> (window: Self)
        requires
            amount > 0,
        ensures
            window@ == counting(seq![], now).push(Wager { ts: now, amount }),
    {
        let bets: Vec<Wager> = vec![Wager { ts: now, amount }];
        proof {
            lemma_counting(seq![], now, now);
            reveal(Seq::filter);
            assert(bets@.drop_last() =~= seq![]);
            assert(bets@ =~= counting(seq![], now).push(Wager { ts: now, amount }));
        }
        PlayerWindowState { bets }
    }

    /// The bets that still count, and one more.
    fn with(&self, now: u64, amount: i128) -> (window: Self)
        requires
            amount > 0,
            counted(self@, now) + amount <= i128::MAX,
        ensures
            window@ == counting(self@, now).push(Wager { ts: now, amount }),
    {
        proof {
            use_type_invariant(self);
        }
        let mut bets: Vec<Wager> = Vec::new();
        let mut i: usize = 0;
        while i < self.bets.len()
            invariant
                i <= self.bets.len(),
                bets@ == counting(self.bets@.take(i as int), now),
            decreases self.bets.len() - i,
        {
            proof {
                reveal(Seq::filter);
            }
            assert(self.bets@.take(i + 1).drop_last() =~= self.bets@.take(i as int));
            if now.saturating_sub(self.bets[i].ts) < WINDOW_SECS {
                bets.push(self.bets[i]);
            }
            i = i + 1;
        }
        assert(self.bets@.take(i as int) =~= self.bets@);
        let ghost kept = bets@;
        bets.push(Wager { ts: now, amount });
        proof {
            lemma_counting(self.bets@, now, now);
            assert(bets@.drop_last() =~= kept);
        }
        PlayerWindowState { bets }
    }
}

impl View for LimitOverride {
    type V = LimitOverride;

    open spec fn view(&self) -> LimitOverride {
        *self
    }
}

#[derive(Clone, Copy, Debug, Eq, PartialEq)]
pub struct WagerRecorded {
    pub player: Address,
    pub amount: i128,
    pub daily_total: i128,
}

#[derive(Clone, Copy, Debug, Eq, PartialEq)]
pub struct LimitOverrideSet {
    pub player: Address,
    pub daily_limit: i128,
    pub per_bet_limit: i128,
}

#[derive(Clone, Copy, Debug, Eq, PartialEq)]
pub enum Event {
    WagerRecorded(WagerRecorded),
    LimitOverrideSet(LimitOverrideSet),
}

/// What `init` writes.
#[derive(Clone, Copy, Debug, Eq, PartialEq)]
pub struct Config {
    pub admin: Address,
    pub default_daily_limit: i128,
    pub default_per_bet_limit: i128,
}

/// The contract's ledger entries.
pub struct WagerLimits {
    pub config: Option<Config>,
    pub overrides: Table<Address, LimitOverride>,
    pub windows: Table<Address, PlayerWindowState>,
}

/// The contract's ledger entries as maps.
#[verifier::ext_equal]
pub struct WagerLimitsState {
    pub config: Option<Config>,
    pub overrides: Map<Address, LimitOverride>,
    pub windows: Map<Address, Seq<Wager>>,
}

impl View for WagerLimits {
    type V = WagerLimitsState;

    open spec fn view(&self) -> WagerLimitsState {
        WagerLimitsState {
            config: self.config,
            overrides: self.overrides@,
            windows: self.windows@,
        }
    }
}

impl WagerLimitsState {
    /// The ledger before `init`.
    pub open spec fn empty() -> Self {
        WagerLimitsState { config: None, overrides: Map::empty(), windows: Map::empty() }
    }

    /// The request for an authorisation, once there is a contract to call.
    pub open spec fn auth_asks(self, address: Address) -> Seq<Effect<DataKey, Event>> {
        if self.config is Some {
            seq![Effect::RequireAuth(address)]
        } else {
            seq![]
        }
    }

    /// Only the admin may go on.
    pub open spec fn admin_result(self, caller: Address) -> Result<(), Error> {
        match self.config {
            None => Err(Error::NotInitialized),
            Some(config) => if caller == config.admin {
                Ok(())
            } else {
                Err(Error::NotAuthorized)
            },
        }
    }

    pub open spec fn init_result(self) -> Result<(), Error> {
        if self.config is Some {
            Err(Error::AlreadyInitialized)
        } else {
            Ok(())
        }
    }

    pub open spec fn after_init(self, config: Config) -> Self {
        if self.init_result() is Ok {
            WagerLimitsState { config: Some(config), ..self }
        } else {
            self
        }
    }

    pub open spec fn init_asks(self, admin: Address) -> Seq<Effect<DataKey, Event>> {
        if self.init_result() is Ok {
            seq![
                Effect::RequireAuth(admin),
                Effect::Store(DataKey::Admin),
                Effect::Store(DataKey::DefaultDailyLimit),
                Effect::Store(DataKey::DefaultPerBetLimit),
            ]
        } else {
            seq![]
        }
    }

    pub open spec fn after_override(
        self,
        admin: Address,
        player: Address,
        limits: LimitOverride,
    ) -> Self {
        if self.admin_result(admin) is Ok {
            WagerLimitsState { overrides: self.overrides.insert(player, limits), ..self }
        } else {
            self
        }
    }

    pub open spec fn override_asks(
        self,
        admin: Address,
        player: Address,
        limits: LimitOverride,
    ) -> Seq<Effect<DataKey, Event>> {
        self.auth_asks(admin) + if self.admin_result(admin) is Ok {
            seq![
                Effect::Store(DataKey::PlayerOverride(player)),
                bumped(DataKey::PlayerOverride(player)),
                Effect::Publish(
                    Event::LimitOverrideSet(
                        LimitOverrideSet {
                            player,
                            daily_limit: limits.daily_limit,
                            per_bet_limit: limits.per_bet_limit,
                        },
                    ),
                ),
            ]
        } else {
            seq![]
        }
    }

    /// A player's daily limit and limit on a single bet: their own, or else
    /// the defaults.
    pub open spec fn limits(self, player: Address) -> (i128, i128) {
        if self.overrides.contains_key(player) {
            (self.overrides[player].daily_limit, self.overrides[player].per_bet_limit)
        } else {
            match self.config {
                Some(config) => (config.default_daily_limit, config.default_per_bet_limit),
                None => (FALLBACK_DAILY_LIMIT, FALLBACK_PER_BET_LIMIT),
            }
        }
    }

    /// The bets of a player that may still count.
    pub open spec fn bets_of(self, player: Address) -> Seq<Wager> {
        if self.windows.contains_key(player) {
            self.windows[player]
        } else {
            seq![]
        }
    }

    /// What a player has wagered within the last day.
    pub open spec fn daily_total(self, now: u64, player: Address) -> int {
        counted(self.bets_of(player), now)
    }

    pub open spec fn can_wager_result(self, now: u64, player: Address, amount: i128) -> Result<
        (),
        Error,
    > {
        if self.config is None {
            Err(Error::NotInitialized)
        } else if amount <= 0 {
            Err(Error::InvalidAmount)
        } else if amount > self.limits(player).1 {
            Err(Error::PerBetLimitExceeded)
        } else if self.daily_total(now, player) + amount > i128::MAX {
            Err(Error::Overflow)
        } else if self.daily_total(now, player) + amount > self.limits(player).0 {
            Err(Error::DailyLimitExceeded)
        } else {
            Ok(())
        }
    }

    /// What the player has wagered within the last day, with this bet.
    pub open spec fn record_result(
        self,
        now: u64,
        caller: Address,
        player: Address,
        amount: i128,
    ) -> Result<i128, Error> {
        match self.admin_result(caller) {
            Err(e) => Err(e),
            Ok(_) => if amount <= 0 {
                Err(Error::InvalidAmount)
            } else if self.daily_total(now, player) + amount > i128::MAX {
                Err(Error::Overflow)
            } else {
                Ok((self.daily_total(now, player) + amount) as i128)
            },
        }
    }

    pub open spec fn after_record(
        self,
        now: u64,
        caller: Address,
        player: Address,
        amount: i128,
    ) -> Self {
        match self.record_result(now, caller, player, amount) {
            Ok(_) => WagerLimitsState {
                windows: self.windows.insert(
                    player,
                    counting(self.bets_of(player), now).push(Wager { ts: now, amount }),
                ),
                ..self
            },
            Err(_) => self,
        }
    }

    pub open spec fn record_asks(
        self,
        now: u64,
        caller: Address,
        player: Address,
        amount: i128,
    ) -> Seq<Effect<DataKey, Event>> {
        self.auth_asks(caller) + match self.record_result(now, caller, player, amount) {
            Ok(daily_total) => seq![
                Effect::Store(DataKey::PlayerWindow(player)),
                bumped(DataKey::PlayerWindow(player)),
                Effect::Publish(
                    Event::WagerRecorded(WagerRecorded { player, amount, daily_total }),
                ),
            ],
            Err(_) => seq![],
        }
    }
}

impl WagerLimits {
    /// The contract before `init`.
    pub fn new() -> (limits: Self)
        ensures
            limits@ == WagerLimitsState::empty(),
    {
        WagerLimits { config: None, overrides: Table::new(), windows: Table::new() }
    }

    /// Asks for the caller's authorisation, and refuses anyone but the admin.
    pub fn require_admin(&self, env: &mut Env<DataKey, Event>, caller: Address) -> (r: Result<
        (),
        Error,
    >)
        ensures
            r == self@.admin_result(caller),
            final(env).after(*old(env), self@.auth_asks(caller)),
    {
        match &self.config {
            None => Err(Error::NotInitialized),
            Some(config) => {
                env.require_auth(caller);
                if caller.same(&config.admin) {
                    Ok(())
                } else {
                    Err(Error::NotAuthorized)
                }
            },
        }
    }

    /// What a player has wagered within the last day.
    fn wagered(&self, player: &Address, now: u64) -> (sum: i128)
        ensures
            sum == self@.daily_total(now, *player),
    {
        match self.windows.get(player) {
            Some(window) => window.wagered(now),
            None => 0,
        }
    }

    pub fn init(
        &mut self,
        env: &mut Env<DataKey, Event>,
        admin: Address,
        default_daily_limit: i128,
        default_per_bet_limit: i128,
    ) -> (r: Result<(), Error>)
        ensures
            r is Err ==> final(self)@ == old(self)@,
            r == old(self)@.init_result(),
            final(self)@ == old(self)@.after_init(
                Config { admin, default_daily_limit, default_per_bet_limit },
            ),
            final(env).after(*old(env), old(self)@.init_asks(admin)),
    {
        if self.config.is_some() {
            return Err(Error::AlreadyInitialized);
        }
        env.require_auth(admin);
        self.config = Some(Config { admin, default_daily_limit, default_per_bet_limit });
        env.store(DataKey::Admin);
        env.store(DataKey::DefaultDailyLimit);
        env.store(DataKey::DefaultPerBetLimit);
        Ok(())
    }

    /// The admin gives a player limits of their own.
    pub fn set_player_override(
        &mut self,
        env: &mut Env<DataKey, Event>,
        admin: Address,
        player: Address,
        daily_limit: i128,
        per_bet_limit: i128,
    ) -> (r: Result<(), Error>)
        ensures
            r is Err ==> final(self)@ == old(self)@,
            r == old(self)@.admin_result(admin),
            final(self)@ == old(self)@.after_override(
                admin,
                player,
                LimitOverride { daily_limit, per_bet_limit },
            ),
            final(env).after(
                *old(env),
                old(self)@.override_asks(
                    admin,
                    player,
                    LimitOverride { daily_limit, per_bet_limit },
                ),
            ),
    {
        if let Err(e) = self.require_admin(env, admin) {
            return Err(e);
        }
        self.overrides.set(player, LimitOverride { daily_limit, per_bet_limit });
        env.store(DataKey::PlayerOverride(player));
        env.bump(DataKey::PlayerOverride(player));
        env.publish(
            Event::LimitOverrideSet(LimitOverrideSet { player, daily_limit, per_bet_limit }),
        );
        Ok(())
    }

    /// Whether a player may place this bet now, or else why not.
    pub fn can_wager(&self, env: &Env<DataKey, Event>, player: Address, amount: i128) -> (r: Result<
        (),
        Error,
    >)
        ensures
            r == self@.can_wager_result(env.timestamp, player, amount),
    {
        if self.config.is_none() {
            return Err(Error::NotInitialized);
        }
        if amount <= 0 {
            return Err(Error::InvalidAmount);
        }
        let (daily_limit, per_bet_limit): (i128, i128) = self.get_limits_for(player);
        if amount > per_bet_limit {
            return Err(Error::PerBetLimitExceeded);
        }
        let new_total: i128 = match self.wagered(&player, env.timestamp).checked_add(amount) {
            Some(new_total) => new_total,
            None => {
                return Err(Error::Overflow);
            },
        };
        if new_total > daily_limit {
            return Err(Error::DailyLimitExceeded);
        }
        Ok(())
    }

    /// Records a bet that was accepted, and returns what the player has wagered
    /// within the last day. Admin only, who acts for the game contracts.
    pub fn record_wager(
        &mut self,
        env: &mut Env<DataKey, Event>,
        caller: Address,
        player: Address,
        amount: i128,
    ) -> (r: Result<i128, Error>)
        ensures
            r is Err ==> final(self)@ == old(self)@,
            r == old(self)@.record_result(old(env).timestamp, caller, player, amount),
            final(self)@ == old(self)@.after_record(old(env).timestamp, caller, player, amount),
            r is Ok ==> forall|later: u64|
                old(env).timestamp <= later ==> #[trigger] final(self)@.daily_total(later, player)
                    == old(self)@.daily_total(later, player) + if later < old(env).timestamp
                    + WINDOW_SECS {
                    amount as int
                } else {
                    0
                },
            final(env).after(
                *old(env),
                old(self)@.record_asks(old(env).timestamp, caller, player, amount),
            ),
    {
        if let Err(e) = self.require_admin(env, caller) {
            return Err(e);
        }
        if amount <= 0 {
            return Err(Error::InvalidAmount);
        }
        let now: u64 = env.timestamp;
        let daily_total: i128 = match self.wagered(&player, now).checked_add(amount) {
            Some(daily_total) => daily_total,
            None => {
                return Err(Error::Overflow);
            },
        };
        let window: PlayerWindowState = match self.windows.get(&player) {
            Some(window) => window.with(now, amount),
            None => PlayerWindowState::first(now, amount),
        };
        self.windows.set(player, window);
        assert forall|later: u64| now <= later implies #[trigger] self@.daily_total(later, player)
            == old(self)@.daily_total(later, player) + if later < now + WINDOW_SECS {
            amount as int
        } else {
            0
        } by {
            law_bet_counts_for_a_day(old(self)@, now, caller, player, amount, later);
        }
        env.store(DataKey::PlayerWindow(player));
        env.bump(DataKey::PlayerWindow(player));
        env.publish(Event::WagerRecorded(WagerRecorded { player, amount, daily_total }));
        Ok(daily_total)
    }

    pub fn get_player_daily_total(&self, env: &Env<DataKey, Event>, player: Address) -> (total:
        i128)
        ensures
            total == self@.daily_total(env.timestamp, player),
    {
        self.wagered(&player, env.timestamp)
    }

    /// A player's daily limit and their limit on a single bet.
    pub fn get_limits_for(&self, player: Address) -> (limits: (i128, i128))
        ensures
            limits == self@.limits(player),
    {
        if let Some(limits) = self.overrides.get(&player) {
            return (limits.daily_limit, limits.per_bet_limit);
        }
        match &self.config {
            Some(config) => (config.default_daily_limit, config.default_per_bet_limit),
            None => (FALLBACK_DAILY_LIMIT, FALLBACK_PER_BET_LIMIT),
        }
    }
}

/// One call that may change the contract's ledger entries.
pub enum Call {
    Init { config: Config },
    SetPlayerOverride { admin: Address, player: Address, limits: LimitOverride },
    RecordWager { now: u64, caller: Address, player: Address, amount: i128 },
}

impl WagerLimitsState {
    pub open spec fn step(self, call: Call) -> Self {
        match call {
            Call::Init { config } => self.after_init(config),
            Call::SetPlayerOverride { admin, player, limits } => self.after_override(
                admin,
                player,
                limits,
            ),
            Call::RecordWager { now, caller, player, amount } => self.after_record(
                now,
                caller,
                player,
                amount,
            ),
        }
    }

    /// What becomes of the ledger when calls are made one after the other.
    pub open spec fn run(self, calls: Seq<Call>) -> Self
        decreases calls.len(),
    {
        if calls.len() == 0 {
            self
        } else {
            self.run(calls.drop_last()).step(calls.last())
        }
    }

    /// The admin whom the `init` among these calls set, if one succeeded.
    pub open spec fn admin_set(self, calls: Seq<Call>) -> Option<Address>
        decreases calls.len(),
    {
        if calls.len() == 0 {
            None
        } else {
            let before = self.admin_set(calls.drop_last());
            match calls.last() {
                Call::Init { config } => if self.run(calls.drop_last()).init_result() is Ok {
                    Some(config.admin)
                } else {
                    before
                },
                _ => before,
            }
        }
    }

    /// What these calls record of a player's bets at times from `from` on and
    /// before `until`.
    pub open spec fn wagered(self, calls: Seq<Call>, who: Address, from: int, until: int) -> int
        decreases calls.len(),
    {
        if calls.len() == 0 {
            0
        } else {
            let before = self.wagered(calls.drop_last(), who, from, until);
            match calls.last() {
                Call::RecordWager { now, caller, player, amount } => if player == who && from
                    <= now < until && self.run(calls.drop_last()).record_result(
                    now,
                    caller,
                    player,
                    amount,
                ) is Ok {
                    before + amount
                } else {
                    before
                },
                _ => before,
            }
        }
    }

    /// The call records no bet of this player, or one that they may place.
    pub open spec fn allows(self, call: Call, who: Address) -> bool {
        call matches Call::RecordWager { now, caller, player, amount } ==> (player == who
            && self.record_result(now, caller, player, amount) is Ok ==> self.can_wager_result(
            now,
            player,
            amount,
        ) is Ok)
    }

    /// The call records no bet of this player, or one that comes no earlier
    /// than any that the calls before it record.
    pub open spec fn in_order(self, before: Seq<Call>, call: Call, who: Address) -> bool {
        call matches Call::RecordWager { now, caller, player, amount } ==> (player == who
            && self.run(before).record_result(now, caller, player, amount) is Ok ==> self.wagered(
            before,
            who,
            now + 1,
            u64::MAX + 1,
        ) == 0)
    }
}

/// A contract is set up once: its admin and defaults stay what they are, and
/// setting it up again is refused.
pub proof fn law_set_up_once(s: WagerLimitsState, calls: Seq<Call>)
    requires
        s.config is Some,
    ensures
        s.run(calls).config == s.config,
        s.run(calls).init_result() == Err::<(), Error>(Error::AlreadyInitialized),
    decreases calls.len(),
{
    if calls.len() > 0 {
        law_set_up_once(s, calls.drop_last());
    }
}

/// Overrides and bets are recorded only by the admin, and only with the
/// admin's own authorisation.
pub proof fn law_admin_only(
    s: WagerLimitsState,
    now: u64,
    caller: Address,
    player: Address,
    limits: LimitOverride,
    amount: i128,
)
    ensures
        s.admin_result(caller) is Ok <==> s.config is Some && caller == s.config->0.admin,
        s.admin_result(caller) is Ok ==> s.override_asks(caller, player, limits)[0] == Effect::<
            DataKey,
            Event,
        >::RequireAuth(s.config->0.admin),
        s.record_result(now, caller, player, amount) is Ok ==> s.admin_result(caller) is Ok
            && s.record_asks(now, caller, player, amount)[0] == Effect::<
            DataKey,
            Event,
        >::RequireAuth(s.config->0.admin),
{
}

/// From an empty ledger, whatever calls were made, the check for the admin
/// knows no admin until an `init` succeeds. From then on it asks for the
/// caller's authorisation and lets nobody through but the admin whom that
/// `init` set.
pub proof fn law_admin_check(calls: Seq<Call>, caller: Address)
    ensures
        match WagerLimitsState::empty().run(calls).config {
            Some(config) => WagerLimitsState::empty().admin_set(calls) == Some(config.admin),
            None => WagerLimitsState::empty().admin_set(calls) is None,
        },
        WagerLimitsState::empty().run(calls).admin_result(caller)
            == match WagerLimitsState::empty().admin_set(calls) {
            None => Err::<(), Error>(Error::NotInitialized),
            Some(admin) => if caller == admin {
                Ok(())
            } else {
                Err(Error::NotAuthorized)
            },
        },
        WagerLimitsState::empty().run(calls).auth_asks(caller)
            == match WagerLimitsState::empty().admin_set(calls) {
            None => Seq::<Effect<DataKey, Event>>::empty(),
            Some(_) => seq![Effect::RequireAuth(caller)],
        },
    decreases calls.len(),
{
    if calls.len() > 0 {
        law_admin_check(calls.drop_last(), caller);
    }
}

/// Whoever does not pass the check for the admin is given its error by every
/// call of the admin, which then changes nothing and asks for no more than
/// the check does.
pub proof fn law_others_are_refused(
    s: WagerLimitsState,
    e: Error,
    caller: Address,
    now: u64,
    player: Address,
    limits: LimitOverride,
    amount: i128,
)
    requires
        s.admin_result(caller) == Err::<(), Error>(e),
    ensures
        s.after_override(caller, player, limits) == s,
        s.override_asks(caller, player, limits) == s.auth_asks(caller),
        s.record_result(now, caller, player, amount) == Err::<i128, Error>(e),
        s.after_record(now, caller, player, amount) == s,
        s.record_asks(now, caller, player, amount) == s.auth_asks(caller),
{
}

/// A bet that may be placed can be recorded at the same time, and then keeps
/// to both limits.
pub proof fn law_checked_bets_keep_limits(
    s: WagerLimitsState,
    now: u64,
    caller: Address,
    player: Address,
    amount: i128,
)
    requires
        s.can_wager_result(now, player, amount) is Ok,
        s.admin_result(caller) is Ok,
    ensures
        amount <= s.limits(player).1,
        s.record_result(now, caller, player, amount) == Ok::<i128, Error>(
            (s.daily_total(now, player) + amount) as i128,
        ),
        s.after_record(now, caller, player, amount).daily_total(now, player) <= s.limits(player).0,
        s.after_record(now, caller, player, amount).daily_total(now, player) == s.daily_total(
            now,
            player,
        ) + amount,
{
    law_bet_counts_for_a_day(s, now, caller, player, amount, now);
}

/// A longer stretch of time holds no less.
proof fn lemma_wagered_within(
    s: WagerLimitsState,
    calls: Seq<Call>,
    who: Address,
    from: int,
    until: int,
    sooner: int,
    later: int,
)
    requires
        sooner <= from,
        until <= later || u64::MAX < later,
    ensures
        0 <= s.wagered(calls, who, from, until) <= s.wagered(calls, who, sooner, later),
    decreases calls.len(),
{
    if calls.len() > 0 {
        lemma_wagered_within(s, calls.drop_last(), who, from, until, sooner, later);
    }
}

/// Two stretches of time that meet hold what the whole does.
proof fn lemma_wagered_split(
    s: WagerLimitsState,
    calls: Seq<Call>,
    who: Address,
    from: int,
    middle: int,
    until: int,
)
    requires
        from <= middle <= until,
    ensures
        s.wagered(calls, who, from, until) == s.wagered(calls, who, from, middle) + s.wagered(
            calls,
            who,
            middle,
            until,
        ),
    decreases calls.len(),
{
    if calls.len() > 0 {
        lemma_wagered_split(s, calls.drop_last(), who, from, middle, until);
    }
}

/// The limit rolls: whatever calls were made, the daily total of a player is
/// what was recorded of their bets in the last `WINDOW_SECS` seconds, as long
/// as nothing was recorded at a time that is still to come.
pub proof fn law_daily_total_rolls(
    s: WagerLimitsState,
    calls: Seq<Call>,
    player: Address,
    now: u64,
)
    requires
        !s.windows.contains_key(player),
        s.wagered(calls, player, now + 1, u64::MAX + 1) == 0,
    ensures
        s.run(calls).daily_total(now, player) == s.wagered(
            calls,
            player,
            now - WINDOW_SECS + 1,
            now + 1,
        ),
    decreases calls.len(),
{
    if calls.len() > 0 {
        let front = calls.drop_last();
        lemma_wagered_within(
            s,
            front,
            player,
            now + 1,
            u64::MAX + 1,
            now + 1,
            u64::MAX + 1,
        );
        if let Call::RecordWager { now: then, caller, player: who, amount } = calls.last() {
            let t = s.run(front);
            if who == player && t.record_result(then, caller, who, amount) is Ok {
                assert(then <= now);
                lemma_counting(t.bets_of(player), then, now);
                let kept = counting(t.bets_of(player), then);
                assert(kept.push(Wager { ts: then, amount }).drop_last() =~= kept);
            }
        }
        law_daily_total_rolls(s, front, player, now);
    }
}

/// If every bet of a player is checked before it is recorded, and their limits
/// stay what they are, then no `WINDOW_SECS` seconds hold more of their bets
/// than the daily limit, wherever they begin. This leaves out bets that are
/// recorded at a time before that of an earlier one.
pub proof fn law_daily_limit_holds(
    s: WagerLimitsState,
    calls: Seq<Call>,
    player: Address,
    from: int,
)
    requires
        !s.windows.contains_key(player),
        forall|n: int|
            0 <= n < calls.len() ==> s.run(#[trigger] calls.take(n)).allows(calls[n], player),
        forall|n: int|
            0 <= n < calls.len() ==> s.in_order(#[trigger] calls.take(n), calls[n], player),
        forall|n: int|
            0 <= n < calls.len() ==> s.run(#[trigger] calls.take(n)).limits(player) == s.limits(
                player,
            ),
    ensures
        s.wagered(calls, player, from, from + WINDOW_SECS) <= if s.limits(player).0 >= 0 {
            s.limits(player).0 as int
        } else {
            0
        },
    decreases calls.len(),
{
    if calls.len() > 0 {
        let front = calls.drop_last();
        assert forall|n: int| 0 <= n < front.len() implies s.run(#[trigger] front.take(n)).allows(
            front[n],
            player,
        ) && s.in_order(front.take(n), front[n], player) && s.run(front.take(n)).limits(player)
            == s.limits(player) by {
            assert(front.take(n) =~= calls.take(n));
            assert(front[n] == calls[n]);
        }
        law_daily_limit_holds(s, front, player, from);
        assert(calls.take(calls.len() - 1) =~= front);
        assert(s.run(calls.take(calls.len() - 1)).allows(calls[calls.len() - 1], player));
        if let Call::RecordWager { now, caller, player: who, amount } = calls.last() {
            if who == player && s.run(front).record_result(now, caller, who, amount) is Ok && from
                <= now < from + WINDOW_SECS {
                law_daily_total_rolls(s, front, player, now);
                lemma_wagered_split(s, front, player, from, now + 1, from + WINDOW_SECS);
                lemma_wagered_within(
                    s,
                    front,
                    player,
                    now + 1,
                    from + WINDOW_SECS,
                    now + 1,
                    u64::MAX + 1,
                );
                lemma_wagered_within(
                    s,
                    front,
                    player,
                    from,
                    now + 1,
                    now - WINDOW_SECS + 1,
                    now + 1,
                );
            }
        }
    }
}

/// What may still be wagered comes back bet by bet: a day after a bet it no
/// longer counts, and up to then it does.
pub proof fn law_bet_counts_for_a_day(
    s: WagerLimitsState,
    now: u64,
    caller: Address,
    player: Address,
    amount: i128,
    later: u64,
)
    requires
        s.record_result(now, caller, player, amount) is Ok,
        now <= later,
    ensures
        s.after_record(now, caller, player, amount).daily_total(later, player) == s.daily_total(
            later,
            player,
        ) + if later < now + WINDOW_SECS {
            amount as int
        } else {
            0
        },
{
    lemma_counting(s.bets_of(player), now, later);
    let kept = counting(s.bets_of(player), now);
    assert(kept.push(Wager { ts: now, amount }).drop_last() =~= kept);
}

/// The bets of one player do not count against another.
pub proof fn law_players_are_apart(
    s: WagerLimitsState,
    now: u64,
    caller: Address,
    player: Address,
    amount: i128,
    other: Address,
    later: u64,
    bet: i128,
)
    requires
        player != other,
    ensures
        s.after_record(now, caller, player, amount).daily_total(later, other) == s.daily_total(
            later,
            other,
        ),
        s.after_record(now, caller, player, amount).can_wager_result(later, other, bet)
            == s.can_wager_result(later, other, bet),
{
}

/// An override takes the place of the defaults, and one that allows nothing on
/// a single bet shuts the player out.
pub proof fn law_override_takes_effect(
    s: WagerLimitsState,
    admin: Address,
    player: Address,
    limits: LimitOverride,
    now: u64,
    amount: i128,
)
    requires
        s.admin_result(admin) is Ok,
    ensures
        s.after_override(admin, player, limits).limits(player) == (
            limits.daily_limit,
            limits.per_bet_limit,
        ),
        limits.per_bet_limit <= 0 ==> s.after_override(admin, player, limits).can_wager_result(
            now,
            player,
            amount,
        ) is Err,
{
}

/// Before anything is called the ledger holds nothing.
pub proof fn law_starts_empty()
    ensures
        WagerLimitsState::empty().config is None,
        WagerLimitsState::empty().overrides == Map::<Address, LimitOverride>::empty(),
        WagerLimitsState::empty().windows == Map::<Address, Seq<Wager>>::empty(),
{
}

/// Without an admin nobody is asked and everybody is refused. Otherwise the
/// caller is asked for, the admin is let through, and all others are refused.
pub proof fn law_admin_is_let_through(s: WagerLimitsState, caller: Address)
    ensures
        s.config is None ==> s.admin_result(caller) == Err::<(), Error>(Error::NotInitialized)
            && s.auth_asks(caller) == Seq::<Effect<DataKey, Event>>::empty(),
        s.config is Some ==> s.auth_asks(caller) =~= seq![Effect::RequireAuth(caller)],
        s.config is Some && caller == s.config->0.admin ==> s.admin_result(caller) == Ok::<
            (),
            Error,
        >(()),
        s.config is Some && caller != s.config->0.admin ==> s.admin_result(caller) == Err::<
            (),
            Error,
        >(Error::NotAuthorized),
{
}

/// A contract that is not set up yet is set up as asked: what `init`
/// was given is written, nothing else changes, and the admin is asked for.
/// Otherwise nothing is written.
pub proof fn law_init_sets_up(s: WagerLimitsState, config: Config)
    ensures
        s.config is None ==> {
            &&& s.init_result() == Ok::<(), Error>(())
            &&& s.after_init(config) == (WagerLimitsState { config: Some(config), ..s })
            &&& s.init_asks(config.admin) =~= seq![
                Effect::RequireAuth(config.admin),
                Effect::Store(DataKey::Admin),
                Effect::Store(DataKey::DefaultDailyLimit),
                Effect::Store(DataKey::DefaultPerBetLimit),
            ]
        },
        s.config is Some ==> {
            &&& s.init_result() == Err::<(), Error>(Error::AlreadyInitialized)
            &&& s.after_init(config) == s
            &&& s.init_asks(config.admin) =~= Seq::<Effect<DataKey, Event>>::empty()
        },
{
}

/// One more bet adds its amount to the total, and to what is counted for as
/// long as less than 86 400 seconds have passed since. Bets that no longer
/// count are left out, and the others kept in their order.
pub proof fn law_bets_are_counted(bets: Seq<Wager>, bet: Wager, now: u64)
    ensures
        total(Seq::<Wager>::empty()) == 0,
        total(bets.push(bet)) == total(bets) + bet.amount,
        counted(Seq::<Wager>::empty(), now) == 0,
        now < bet.ts + 86_400 ==> counted(bets.push(bet), now) == counted(bets, now) + bet.amount,
        now >= bet.ts + 86_400 ==> counted(bets.push(bet), now) == counted(bets, now),
        counting(Seq::<Wager>::empty(), now) == Seq::<Wager>::empty(),
        now < bet.ts + 86_400 ==> counting(bets.push(bet), now) == counting(bets, now).push(bet),
        now >= bet.ts + 86_400 ==> counting(bets.push(bet), now) == counting(bets, now),
{
    reveal(Seq::filter);
    assert(bets.push(bet).drop_last() =~= bets);
}

/// Bets are countable exactly if each is above zero and their sum fits.
pub proof fn law_countable(bets: Seq<Wager>)
    ensures
        countable(bets) <==> total(bets) <= i128::MAX && forall|i: int|
            0 <= i < bets.len() ==> (#[trigger] bets[i]).amount > 0,
{
}

/// A player's own limits bind them in place of the defaults, and the defaults
/// bind everybody else. Before the contract is set up these are 10 000 a day
/// and 1 000 on a bet.
pub proof fn law_own_limits_replace_defaults(s: WagerLimitsState, player: Address)
    ensures
        s.overrides.contains_key(player) ==> s.limits(player) == (
            s.overrides[player].daily_limit,
            s.overrides[player].per_bet_limit,
        ),
        !s.overrides.contains_key(player) && s.config is Some ==> s.limits(player) == (
            s.config->0.default_daily_limit,
            s.config->0.default_per_bet_limit,
        ),
        !s.overrides.contains_key(player) && s.config is None ==> s.limits(player) == (
            10_000i128,
            1_000i128,
        ),
{
}

/// The admin gives limits to the one player named, and to no other.
pub proof fn law_override_sets_one(
    s: WagerLimitsState,
    caller: Address,
    player: Address,
    limits: LimitOverride,
)
    requires
        s.config is Some,
        caller == s.config->0.admin,
    ensures
        s.after_override(caller, player, limits) == (WagerLimitsState {
            overrides: s.overrides.insert(player, limits),
            ..s
        }),
        s.override_asks(caller, player, limits) =~= seq![
            Effect::RequireAuth(caller),
            Effect::Store(DataKey::PlayerOverride(player)),
            Effect::ExtendTtl {
                key: DataKey::PlayerOverride(player),
                threshold: 518_400,
                extend_to: 518_400,
            },
            Effect::Publish(
                Event::LimitOverrideSet(
                    LimitOverrideSet {
                        player,
                        daily_limit: limits.daily_limit,
                        per_bet_limit: limits.per_bet_limit,
                    },
                ),
            ),
        ],
{
}

/// The daily total is what is counted of the bets written for a player.
pub proof fn law_daily_total_is_what_was_written(s: WagerLimitsState, now: u64, player: Address)
    ensures
        s.windows.contains_key(player) ==> s.bets_of(player) == s.windows[player]
            && s.daily_total(now, player) == counted(s.windows[player], now),
        !s.windows.contains_key(player) ==> s.bets_of(player) == Seq::<Wager>::empty()
            && s.daily_total(now, player) == 0,
{
}

/// Every bet that keeps to both of a player's limits may be placed.
pub proof fn law_bet_within_limits_is_allowed(
    s: WagerLimitsState,
    now: u64,
    player: Address,
    amount: i128,
)
    requires
        s.config is Some,
        0 < amount <= s.limits(player).1,
        s.daily_total(now, player) + amount <= s.limits(player).0,
    ensures
        s.can_wager_result(now, player, amount) == Ok::<(), Error>(()),
{
}

/// A bet is refused only for one of five reasons, each with its own error.
pub proof fn law_bet_is_refused_for_a_reason(
    s: WagerLimitsState,
    now: u64,
    player: Address,
    amount: i128,
)
    ensures
        s.config is None ==> s.can_wager_result(now, player, amount) == Err::<(), Error>(
            Error::NotInitialized,
        ),
        s.config is Some && amount <= 0 ==> s.can_wager_result(now, player, amount) == Err::<
            (),
            Error,
        >(Error::InvalidAmount),
        s.config is Some && amount > 0 && amount > s.limits(player).1 ==> s.can_wager_result(
            now,
            player,
            amount,
        ) == Err::<(), Error>(Error::PerBetLimitExceeded),
        s.config is Some && 0 < amount <= s.limits(player).1 && s.daily_total(now, player) + amount
            > i128::MAX ==> s.can_wager_result(now, player, amount) == Err::<(), Error>(
            Error::Overflow,
        ),
        s.config is Some && 0 < amount <= s.limits(player).1 && s.daily_total(now, player) + amount
            <= i128::MAX && s.daily_total(now, player) + amount > s.limits(player).0
            ==> s.can_wager_result(now, player, amount) == Err::<(), Error>(
            Error::DailyLimitExceeded,
        ),
{
}

/// Two players with the same limits and the same daily total may place the
/// same bets, wherever their limits come from.
pub proof fn law_only_limits_and_total_matter(
    s: WagerLimitsState,
    t: WagerLimitsState,
    now: u64,
    later: u64,
    player: Address,
    other: Address,
    amount: i128,
)
    requires
        s.config is Some,
        t.config is Some,
        s.limits(player) == t.limits(other),
        s.daily_total(now, player) == t.daily_total(later, other),
    ensures
        s.can_wager_result(now, player, amount) == t.can_wager_result(later, other, amount),
{
}

/// The admin may record any bet above zero, whatever the limits: it is added
/// to the bets of that player that still count, and the new daily total is
/// handed back. It is refused only if that cannot be counted.
pub proof fn law_bet_can_be_recorded(
    s: WagerLimitsState,
    now: u64,
    caller: Address,
    player: Address,
    amount: i128,
)
    requires
        s.config is Some,
        caller == s.config->0.admin,
    ensures
        amount > 0 && i128::MIN <= s.daily_total(now, player) + amount <= i128::MAX ==> {
            let daily_total = (s.daily_total(now, player) + amount) as i128;
            &&& s.record_result(now, caller, player, amount) == Ok::<i128, Error>(daily_total)
            &&& s.after_record(now, caller, player, amount) == (WagerLimitsState {
                windows: s.windows.insert(
                    player,
                    counting(s.bets_of(player), now).push(Wager { ts: now, amount }),
                ),
                ..s
            })
            &&& s.record_asks(now, caller, player, amount) =~= seq![
                Effect::RequireAuth(caller),
                Effect::Store(DataKey::PlayerWindow(player)),
                Effect::ExtendTtl {
                key: DataKey::PlayerWindow(player),
                threshold: 518_400,
                extend_to: 518_400,
            },
                Effect::Publish(
                    Event::WagerRecorded(WagerRecorded { player, amount, daily_total }),
                ),
            ]
        },
        amount <= 0 ==> s.record_result(now, caller, player, amount) == Err::<i128, Error>(
            Error::InvalidAmount,
        ),
        amount > 0 && s.daily_total(now, player) + amount > i128::MAX ==> s.record_result(
            now,
            caller,
            player,
            amount,
        ) == Err::<i128, Error>(Error::Overflow),
        s.record_result(now, caller, player, amount) is Err ==> s.after_record(
            now,
            caller,
            player,
            amount,
        ) == s && s.record_asks(now, caller, player, amount) =~= seq![Effect::RequireAuth(caller)],
{
}

} // verus!
