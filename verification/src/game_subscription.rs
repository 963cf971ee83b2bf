//! Subscriptions that open premium game content for a time. Players pay the
//! price of a plan and are subscribed for its duration.
//!
//! The admin calls `init` with the token and adds or changes plans with
//! `set_plan` at any time. Players call `subscribe`, and game contracts ask
//! `is_subscribed`.

use vstd::prelude::*;

use crate::address::{Address, Key};
use crate::env::{bumped, moved, Effect, Env};
use crate::table::Table;

verus! {

#[derive(Copy, Clone, Debug, Eq, PartialEq, PartialOrd, Ord)]
pub enum Error {
    AlreadyInitialized,
    NotInitialized,
    NotAuthorized,
    PlanNotFound,
    InvalidAmount,
    Overflow,
}

impl Error {
    /// The number by which callers of the contract know the error.
    pub fn code(self) -> (code: u32)
        ensures
            code == match self {
                Error::AlreadyInitialized => 1u32,
                Error::NotInitialized => 2,
                Error::NotAuthorized => 3,
                Error::PlanNotFound => 4,
                Error::InvalidAmount => 5,
                Error::Overflow => 6,
            },
    {
        match self {
            Error::AlreadyInitialized => 1,
            Error::NotInitialized => 2,
            Error::NotAuthorized => 3,
            Error::PlanNotFound => 4,
            Error::InvalidAmount => 5,
            Error::Overflow => 6,
        }
    }
}

/// The names of the contract's ledger entries.
#[derive(Clone, Copy, Debug, Eq, PartialEq)]
pub enum DataKey {
    Admin,
    Token,
    Plan(u32),
    Subscription(Address),
    TotalRevenue,
}

#[derive(Clone, Copy, Debug, Eq, PartialEq)]
pub struct SubscriptionPlan {
    pub plan_id: u32,
    pub duration_secs: u64,
    pub price: i128,
    pub is_active: bool,
}

#[derive(Clone, Copy, Debug, Eq, PartialEq)]
pub struct SubscriptionRecord {
    pub plan_id: u32,
    pub expires_ts: u64,
}

impl View for SubscriptionPlan {
    type V = SubscriptionPlan;

    open spec fn view(&self) -> SubscriptionPlan {
        *self
    }
}

impl View for SubscriptionRecord {
    type V = SubscriptionRecord;

    open spec fn view(&self) -> SubscriptionRecord {
        *self
    }
}

#[derive(Clone, Copy, Debug, Eq, PartialEq)]
pub struct Subscribed {
    pub player: Address,
    pub plan_id: u32,
    pub expires_ts: u64,
    pub price: i128,
}

#[derive(Clone, Copy, Debug, Eq, PartialEq)]
pub struct PlanUpdated {
    pub plan_id: u32,
}

#[derive(Clone, Copy, Debug, Eq, PartialEq)]
pub enum Event {
    Subscribed(Subscribed),
    PlanUpdated(PlanUpdated),
}

/// What `init` writes.
#[derive(Clone, Copy, Debug, Eq, PartialEq)]
pub struct Config {
    pub admin: Address,
    pub token: Address,
}

/// The contract's ledger entries.
pub struct GameSubscription {
    pub config: Option<Config>,
    pub plans: Table<u32, SubscriptionPlan>,
    pub subscriptions: Table<Address, SubscriptionRecord>,
    pub total_revenue: i128,
}

/// The contract's ledger entries as maps.
#[verifier::ext_equal]
pub struct GameSubscriptionState {
    pub config: Option<Config>,
    pub plans: Map<u32, SubscriptionPlan>,
    pub subscriptions: Map<Address, SubscriptionRecord>,
    pub total_revenue: i128,
}

impl View for GameSubscription {
    type V = GameSubscriptionState;

    open spec fn view(&self) -> GameSubscriptionState {
        GameSubscriptionState {
            config: self.config,
            plans: self.plans@,
            subscriptions: self.subscriptions@,
            total_revenue: self.total_revenue,
        }
    }
}

impl GameSubscriptionState {
    /// The ledger before `init`.
    pub open spec fn empty() -> Self {
        GameSubscriptionState {
            config: None,
            plans: Map::empty(),
            subscriptions: Map::empty(),
            total_revenue: 0,
        }
    }

    /// The request for an authorisation, once there is a contract to call.
    pub open spec fn auth_asks(self, address: Address) -> Seq<Effect<DataKey, Event>> {
        if self.config is Some {
            seq![Effect::RequireAuth(address)]
        } else {
            seq![]
        }
    }

    /// Only the admin may go on.
    pub open spec fn admin_result(self, caller: Address) -> Result<(), Error> {
        match self.config {
            None => Err(Error::NotInitialized),
            Some(config) => if caller == config.admin {
                Ok(())
            } else {
                Err(Error::NotAuthorized)
            },
        }
    }

    pub open spec fn init_result(self) -> Result<(), Error> {
        if self.config is Some {
            Err(Error::AlreadyInitialized)
        } else {
            Ok(())
        }
    }

    pub open spec fn after_init(self, config: Config) -> Self {
        if self.init_result() is Ok {
            GameSubscriptionState { config: Some(config), ..self }
        } else {
            self
        }
    }

    pub open spec fn init_asks(self, admin: Address) -> Seq<Effect<DataKey, Event>> {
        if self.init_result() is Ok {
            seq![
                Effect::RequireAuth(admin),
                Effect::Store(DataKey::Admin),
                Effect::Store(DataKey::Token),
            ]
        } else {
            seq![]
        }
    }

    pub open spec fn after_set_plan(self, admin: Address, plan: SubscriptionPlan) -> Self {
        if self.admin_result(admin) is Ok {
            GameSubscriptionState { plans: self.plans.insert(plan.plan_id, plan), ..self }
        } else {
            self
        }
    }

    pub open spec fn set_plan_asks(self, admin: Address, plan: SubscriptionPlan) -> Seq<
        Effect<DataKey, Event>,
    > {
        self.auth_asks(admin) + if self.admin_result(admin) is Ok {
            seq![
                Effect::Store(DataKey::Plan(plan.plan_id)),
                Effect::Publish(Event::PlanUpdated(PlanUpdated { plan_id: plan.plan_id })),
            ]
        } else {
            seq![]
        }
    }

    /// There is such a plan to subscribe to.
    pub open spec fn may_subscribe(self, plan_id: u32) -> Result<(), Error> {
        if self.config is None {
            Err(Error::NotInitialized)
        } else if !self.plans.contains_key(plan_id) || !self.plans[plan_id].is_active {
            Err(Error::PlanNotFound)
        } else {
            Ok(())
        }
    }

    /// When a player's subscription ends, 0 if they have none.
    pub open spec fn expiry(self, player: Address) -> u64 {
        if self.subscriptions.contains_key(player) {
            self.subscriptions[player].expires_ts
        } else {
            0
        }
    }

    /// When it ends after subscribing to a plan: the plan's duration after now
    /// or after the current end, whichever is later.
    pub open spec fn next_expiry(self, now: u64, player: Address, plan_id: u32) -> int {
        let start = if now < self.expiry(player) {
            self.expiry(player)
        } else {
            now
        };
        start + self.plans[plan_id].duration_secs
    }

    pub open spec fn subscribe_result(self, now: u64, player: Address, plan_id: u32) -> Result<
        u64,
        Error,
    > {
        match self.may_subscribe(plan_id) {
            Err(e) => Err(e),
            Ok(_) => if self.next_expiry(now, player, plan_id) <= u64::MAX && i128::MIN
                <= self.total_revenue + self.plans[plan_id].price <= i128::MAX {
                Ok(self.next_expiry(now, player, plan_id) as u64)
            } else {
                Err(Error::Overflow)
            },
        }
    }

    pub open spec fn after_subscribe(self, now: u64, player: Address, plan_id: u32) -> Self {
        match self.subscribe_result(now, player, plan_id) {
            Ok(expires_ts) => GameSubscriptionState {
                subscriptions: self.subscriptions.insert(
                    player,
                    SubscriptionRecord { plan_id, expires_ts },
                ),
                total_revenue: (self.total_revenue + self.plans[plan_id].price) as i128,
                ..self
            },
            Err(_) => self,
        }
    }

    /// The price is asked for before the end is worked out.
    pub open spec fn subscribe_asks(
        self,
        now: u64,
        contract: Address,
        player: Address,
        plan_id: u32,
    ) -> Seq<Effect<DataKey, Event>> {
        self.auth_asks(player) + if self.may_subscribe(plan_id) is Ok {
            seq![
                Effect::Transfer {
                    token: self.config->0.token,
                    from: player,
                    to: contract,
                    amount: self.plans[plan_id].price,
                },
            ] + match self.subscribe_result(now, player, plan_id) {
                Ok(expires_ts) => seq![
                    Effect::Store(DataKey::Subscription(player)),
                    bumped(DataKey::Subscription(player)),
                    Effect::Store(DataKey::TotalRevenue),
                    Effect::Publish(
                        Event::Subscribed(
                            Subscribed {
                                player,
                                plan_id,
                                expires_ts,
                                price: self.plans[plan_id].price,
                            },
                        ),
                    ),
                ],
                Err(_) => seq![],
            }
        } else {
            seq![]
        }
    }

    /// A player's subscription has not ended yet.
    pub open spec fn subscribed(self, now: u64, player: Address) -> bool {
        self.expiry(player) > now
    }
}

impl GameSubscription {
    /// The contract before `init`.
    pub fn new() -> (subscription: Self)
        ensures
            subscription@ == GameSubscriptionState::empty(),
    {
        GameSubscription {
            config: None,
            plans: Table::new(),
            subscriptions: Table::new(),
            total_revenue: 0,
        }
    }

    /// Asks for the caller's authorisation, and refuses anyone but the admin.
    pub fn require_admin(&self, env: &mut Env<DataKey, Event>, caller: Address) -> (r: Result<
        (),
        Error,
    >)
        ensures
            r == self@.admin_result(caller),
            final(env).after(*old(env), self@.auth_asks(caller)),
    {
        match &self.config {
            None => Err(Error::NotInitialized),
            Some(config) => {
                env.require_auth(caller);
                if caller.same(&config.admin) {
                    Ok(())
                } else {
                    Err(Error::NotAuthorized)
                }
            },
        }
    }

    pub fn init(&mut self, env: &mut Env<DataKey, Event>, admin: Address, token: Address) -> (r:
        Result<(), Error>)
        ensures
            r is Err ==> final(self)@ == old(self)@,
            r == old(self)@.init_result(),
            final(self)@ == old(self)@.after_init(Config { admin, token }),
            final(env).after(*old(env), old(self)@.init_asks(admin)),
    {
        if self.config.is_some() {
            return Err(Error::AlreadyInitialized);
        }
        env.require_auth(admin);
        self.config = Some(Config { admin, token });
        env.store(DataKey::Admin);
        env.store(DataKey::Token);
        Ok(())
    }

    /// The admin adds a plan or changes it.
    pub fn set_plan(
        &mut self,
        env: &mut Env<DataKey, Event>,
        admin: Address,
        plan: SubscriptionPlan,
    ) -> (r: Result<(), Error>)
        ensures
            r is Err ==> final(self)@ == old(self)@,
            r == old(self)@.admin_result(admin),
            final(self)@ == old(self)@.after_set_plan(admin, plan),
            final(env).after(*old(env), old(self)@.set_plan_asks(admin, plan)),
    {
        if let Err(e) = self.require_admin(env, admin) {
            return Err(e);
        }
        self.plans.set(plan.plan_id, plan);
        env.store(DataKey::Plan(plan.plan_id));
        env.publish(Event::PlanUpdated(PlanUpdated { plan_id: plan.plan_id }));
        Ok(())
    }

    /// A player subscribes to a plan. A subscription that has not ended yet is
    /// extended from its end.
    pub fn subscribe(&mut self, env: &mut Env<DataKey, Event>, player: Address, plan_id: u32) -> (r:
        Result<u64, Error>)
        ensures
            r is Err ==> final(self)@ == old(self)@,
            r == old(self)@.subscribe_result(old(env).timestamp, player, plan_id),
            final(self)@ == old(self)@.after_subscribe(old(env).timestamp, player, plan_id),
            final(env).after(
                *old(env),
                old(self)@.subscribe_asks(old(env).timestamp, old(env).contract, player, plan_id),
            ),
    {
        let config: Config = match self.config {
            Some(config) => config,
            None => {
                return Err(Error::NotInitialized);
            },
        };
        env.require_auth(player);
        let plan: SubscriptionPlan = match self.plans.get(&plan_id) {
            Some(plan) => *plan,
            None => {
                return Err(Error::PlanNotFound);
            },
        };
        if !plan.is_active {
            return Err(Error::PlanNotFound);
        }
        let contract: Address = env.contract;
        env.transfer(config.token, player, contract, plan.price);

        let now: u64 = env.timestamp;
        let existing_expiry: u64 = match self.subscriptions.get(&player) {
            Some(record) => record.expires_ts,
            None => 0,
        };
        let start: u64 = if now < existing_expiry {
            existing_expiry
        } else {
            now
        };
        let expires_ts: u64 = match start.checked_add(plan.duration_secs) {
            Some(expires_ts) => expires_ts,
            None => {
                return Err(Error::Overflow);
            },
        };
        let revenue: i128 = match self.total_revenue.checked_add(plan.price) {
            Some(revenue) => revenue,
            None => {
                return Err(Error::Overflow);
            },
        };
        self.subscriptions.set(player, SubscriptionRecord { plan_id, expires_ts });
        env.store(DataKey::Subscription(player));
        env.bump(DataKey::Subscription(player));
        self.total_revenue = revenue;
        env.store(DataKey::TotalRevenue);
        env.publish(
            Event::Subscribed(Subscribed { player, plan_id, expires_ts, price: plan.price }),
        );
        Ok(expires_ts)
    }

    /// Whether a player's subscription has not ended yet.
    pub fn is_subscribed(&self, env: &Env<DataKey, Event>, player: Address) -> (r: bool)
        ensures
            r == self@.subscribed(env.timestamp, player),
    {
        match self.subscriptions.get(&player) {
            Some(record) => record.expires_ts > env.timestamp,
            None => false,
        }
    }

    pub fn get_subscription(&self, player: Address) -> (r: Option<SubscriptionRecord>)
        ensures
            r == if self@.subscriptions.contains_key(player) {
                Some(self@.subscriptions[player])
            } else {
                None
            },
    {
        match self.subscriptions.get(&player) {
            Some(record) => Some(*record),
            None => None,
        }
    }

    pub fn get_plan(&self, plan_id: u32) -> (r: Result<SubscriptionPlan, Error>)
        ensures
            r == if self@.plans.contains_key(plan_id) {
                Ok::<SubscriptionPlan, Error>(self@.plans[plan_id])
            } else {
                Err(Error::PlanNotFound)
            },
    {
        match self.plans.get(&plan_id) {
            Some(plan) => Ok(*plan),
            None => Err(Error::PlanNotFound),
        }
    }

    pub fn get_total_revenue(&self) -> (total: i128)
        ensures
            total == self@.total_revenue,
    {
        self.total_revenue
    }
}

/// One call that may change the contract's ledger entries.
pub enum Call {
    Init { config: Config },
    SetPlan { admin: Address, plan: SubscriptionPlan },
    Subscribe { now: u64, player: Address, plan_id: u32 },
}

impl GameSubscriptionState {
    pub open spec fn step(self, call: Call) -> Self {
        match call {
            Call::Init { config } => self.after_init(config),
            Call::SetPlan { admin, plan } => self.after_set_plan(admin, plan),
            Call::Subscribe { now, player, plan_id } => self.after_subscribe(now, player, plan_id),
        }
    }

    /// What becomes of the ledger when calls are made one after the other.
    pub open spec fn run(self, calls: Seq<Call>) -> Self
        decreases calls.len(),
    {
        if calls.len() == 0 {
            self
        } else {
            self.run(calls.drop_last()).step(calls.last())
        }
    }

    /// The admin whom the `init` among these calls set, if one succeeded.
    pub open spec fn admin_set(self, calls: Seq<Call>) -> Option<Address>
        decreases calls.len(),
    {
        if calls.len() == 0 {
            None
        } else {
            let before = self.admin_set(calls.drop_last());
            match calls.last() {
                Call::Init { config } => if self.run(calls.drop_last()).init_result() is Ok {
                    Some(config.admin)
                } else {
                    before
                },
                _ => before,
            }
        }
    }

    /// The prices that players pay in these calls.
    pub open spec fn prices_paid(self, calls: Seq<Call>) -> int
        decreases calls.len(),
    {
        if calls.len() == 0 {
            0
        } else {
            let before = self.prices_paid(calls.drop_last());
            let s = self.run(calls.drop_last());
            match calls.last() {
                Call::Subscribe { now, player, plan_id } => if s.subscribe_result(
                    now,
                    player,
                    plan_id,
                ) is Ok {
                    before + s.plans[plan_id].price
                } else {
                    before
                },
                _ => before,
            }
        }
    }
}

/// A contract is set up once: its admin and token stay what they are, and
/// setting it up again is refused.
pub proof fn law_set_up_once(s: GameSubscriptionState, calls: Seq<Call>)
    requires
        s.config is Some,
    ensures
        s.run(calls).config == s.config,
        s.run(calls).init_result() == Err::<(), Error>(Error::AlreadyInitialized),
    decreases calls.len(),
{
    if calls.len() > 0 {
        law_set_up_once(s, calls.drop_last());
    }
}

/// Plans are changed only by the admin, and only with the admin's own
/// authorisation.
pub proof fn law_admin_only(s: GameSubscriptionState, caller: Address, plan: SubscriptionPlan)
    requires
        s.admin_result(caller) is Ok,
    ensures
        s.config is Some,
        caller == s.config->0.admin,
        s.set_plan_asks(caller, plan)[0] == Effect::<DataKey, Event>::RequireAuth(
            s.config->0.admin,
        ),
{
}

/// From an empty ledger, whatever calls were made, the check for the admin
/// knows no admin until an `init` succeeds. From then on it asks for the
/// caller's authorisation and lets nobody through but the admin whom that
/// `init` set.
pub proof fn law_admin_check(calls: Seq<Call>, caller: Address)
    ensures
        match GameSubscriptionState::empty().run(calls).config {
            Some(config) => GameSubscriptionState::empty().admin_set(calls) == Some(config.admin),
            None => GameSubscriptionState::empty().admin_set(calls) is None,
        },
        GameSubscriptionState::empty().run(calls).admin_result(caller)
            == match GameSubscriptionState::empty().admin_set(calls) {
            None => Err::<(), Error>(Error::NotInitialized),
            Some(admin) => if caller == admin {
                Ok(())
            } else {
                Err(Error::NotAuthorized)
            },
        },
        GameSubscriptionState::empty().run(calls).auth_asks(caller)
            == match GameSubscriptionState::empty().admin_set(calls) {
            None => Seq::<Effect<DataKey, Event>>::empty(),
            Some(_) => seq![Effect::RequireAuth(caller)],
        },
    decreases calls.len(),
{
    if calls.len() > 0 {
        law_admin_check(calls.drop_last(), caller);
    }
}

/// Whoever does not pass the check for the admin is given its error by every
/// call of the admin, which then changes nothing and asks for no more than
/// the check does.
pub proof fn law_others_are_refused(
    s: GameSubscriptionState,
    e: Error,
    caller: Address,
    plan: SubscriptionPlan,
)
    requires
        s.admin_result(caller) == Err::<(), Error>(e),
    ensures
        s.after_set_plan(caller, plan) == s,
        s.set_plan_asks(caller, plan) == s.auth_asks(caller),
{
}

/// A subscription is never cut short: no call makes it end earlier.
pub proof fn law_never_cut_short(s: GameSubscriptionState, calls: Seq<Call>, player: Address)
    ensures
        s.run(calls).expiry(player) >= s.expiry(player),
    decreases calls.len(),
{
    if calls.len() > 0 {
        law_never_cut_short(s, calls.drop_last(), player);
    }
}

/// Subscribing gives the full duration of the plan: the player is subscribed
/// for that long from now on, and for that long past an end that lay ahead,
/// whatever calls follow.
pub proof fn law_full_duration(
    s: GameSubscriptionState,
    now: u64,
    player: Address,
    plan_id: u32,
    calls: Seq<Call>,
    later: u64,
)
    requires
        s.subscribe_result(now, player, plan_id) is Ok,
    ensures
        s.after_subscribe(now, player, plan_id).expiry(player) >= now
            + s.plans[plan_id].duration_secs,
        s.after_subscribe(now, player, plan_id).expiry(player) >= s.expiry(player)
            + s.plans[plan_id].duration_secs,
        later < now + s.plans[plan_id].duration_secs || later < s.expiry(player)
            + s.plans[plan_id].duration_secs ==> s.after_subscribe(now, player, plan_id).run(
            calls,
        ).subscribed(later, player),
{
    law_never_cut_short(s.after_subscribe(now, player, plan_id), calls, player);
}

/// Subscribing again while subscribed adds the durations.
pub proof fn law_durations_add_up(
    s: GameSubscriptionState,
    now: u64,
    later: u64,
    player: Address,
    first: u32,
    second: u32,
)
    requires
        s.subscribe_result(now, player, first) is Ok,
        s.after_subscribe(now, player, first).subscribe_result(later, player, second) is Ok,
        later <= s.after_subscribe(now, player, first).expiry(player),
    ensures
        s.after_subscribe(now, player, first).after_subscribe(later, player, second).expiry(player)
            == s.next_expiry(now, player, first) + s.plans[second].duration_secs,
{
}

/// The revenue is what players paid.
pub proof fn law_revenue_is_paid(calls: Seq<Call>)
    ensures
        GameSubscriptionState::empty().run(calls).total_revenue
            == GameSubscriptionState::empty().prices_paid(calls),
    decreases calls.len(),
{
    if calls.len() > 0 {
        law_revenue_is_paid(calls.drop_last());
    }
}

/// A player subscribes, and pays the price, only with their own authorisation.
pub proof fn law_player_authorises(
    s: GameSubscriptionState,
    now: u64,
    contract: Address,
    player: Address,
    plan_id: u32,
)
    requires
        s.may_subscribe(plan_id) is Ok,
    ensures
        s.subscribe_asks(now, contract, player, plan_id)[0] == Effect::<
            DataKey,
            Event,
        >::RequireAuth(player),
{
}

/// Before anything is called the ledger holds nothing.
pub proof fn law_starts_empty()
    ensures
        GameSubscriptionState::empty().config is None,
        GameSubscriptionState::empty().plans == Map::<u32, SubscriptionPlan>::empty(),
        GameSubscriptionState::empty().subscriptions == Map::<Address, SubscriptionRecord>::empty(),
        GameSubscriptionState::empty().total_revenue == 0,
{
}

/// Without an admin nobody is asked and everybody is refused. Otherwise the
/// caller is asked for, the admin is let through, and all others are refused.
pub proof fn law_admin_is_let_through(s: GameSubscriptionState, caller: Address)
    ensures
        s.config is None ==> s.admin_result(caller) == Err::<(), Error>(Error::NotInitialized)
            && s.auth_asks(caller) == Seq::<Effect<DataKey, Event>>::empty(),
        s.config is Some ==> s.auth_asks(caller) =~= seq![Effect::RequireAuth(caller)],
        s.config is Some && caller == s.config->0.admin ==> s.admin_result(caller) == Ok::<
            (),
            Error,
        >(()),
        s.config is Some && caller != s.config->0.admin ==> s.admin_result(caller) == Err::<
            (),
            Error,
        >(Error::NotAuthorized),
{
}

/// A contract that is not set up yet is set up as asked: what `init`
/// was given is written, nothing else changes, and the admin is asked for.
/// Otherwise nothing is written.
pub proof fn law_init_sets_up(s: GameSubscriptionState, config: Config)
    ensures
        s.config is None ==> {
            &&& s.init_result() == Ok::<(), Error>(())
            &&& s.after_init(config) == (GameSubscriptionState { config: Some(config), ..s })
            &&& s.init_asks(config.admin) =~= seq![
                Effect::RequireAuth(config.admin),
                Effect::Store(DataKey::Admin),
                Effect::Store(DataKey::Token),
            ]
        },
        s.config is Some ==> {
            &&& s.init_result() == Err::<(), Error>(Error::AlreadyInitialized)
            &&& s.after_init(config) == s
            &&& s.init_asks(config.admin) =~= Seq::<Effect<DataKey, Event>>::empty()
        },
{
}

/// The admin adds or replaces the one plan that is given, and no other.
pub proof fn law_set_plan_sets_one(
    s: GameSubscriptionState,
    caller: Address,
    plan: SubscriptionPlan,
)
    requires
        s.config is Some,
        caller == s.config->0.admin,
    ensures
        s.after_set_plan(caller, plan) == (GameSubscriptionState {
            plans: s.plans.insert(plan.plan_id, plan),
            ..s
        }),
        s.set_plan_asks(caller, plan) =~= seq![
            Effect::RequireAuth(caller),
            Effect::Store(DataKey::Plan(plan.plan_id)),
            Effect::Publish(Event::PlanUpdated(PlanUpdated { plan_id: plan.plan_id })),
        ],
{
}

/// Every active plan can be bought by everybody: the player pays its price and
/// is subscribed for its duration, from `start`, which is the later of now and
/// the end of what they have. It fails only if a number grows too large.
pub proof fn law_active_plan_is_sold(
    s: GameSubscriptionState,
    now: u64,
    contract: Address,
    player: Address,
    plan_id: u32,
    start: u64,
)
    requires
        s.config is Some,
        s.plans.contains_key(plan_id),
        s.plans[plan_id].is_active,
        s.subscriptions.contains_key(player) && s.subscriptions[player].expires_ts > now ==> start
            == s.subscriptions[player].expires_ts,
        !(s.subscriptions.contains_key(player) && s.subscriptions[player].expires_ts > now)
            ==> start == now,
    ensures
        start + s.plans[plan_id].duration_secs <= u64::MAX && i128::MIN <= s.total_revenue
            + s.plans[plan_id].price <= i128::MAX ==> {
            let expires_ts = (start + s.plans[plan_id].duration_secs) as u64;
            &&& s.subscribe_result(now, player, plan_id) == Ok::<u64, Error>(expires_ts)
            &&& s.after_subscribe(now, player, plan_id) == (GameSubscriptionState {
                subscriptions: s.subscriptions.insert(
                    player,
                    SubscriptionRecord { plan_id, expires_ts },
                ),
                total_revenue: (s.total_revenue + s.plans[plan_id].price) as i128,
                ..s
            })
            &&& s.subscribe_asks(now, contract, player, plan_id) =~= seq![
                Effect::RequireAuth(player),
                Effect::Transfer {
                    token: s.config->0.token,
                    from: player,
                    to: contract,
                    amount: s.plans[plan_id].price,
                },
                Effect::Store(DataKey::Subscription(player)),
                Effect::ExtendTtl {
                key: DataKey::Subscription(player),
                threshold: 518_400,
                extend_to: 518_400,
            },
                Effect::Store(DataKey::TotalRevenue),
                Effect::Publish(
                    Event::Subscribed(
                        Subscribed { player, plan_id, expires_ts, price: s.plans[plan_id].price },
                    ),
                ),
            ]
            &&& moved(
                s.subscribe_asks(now, contract, player, plan_id),
                s.config->0.token,
                player,
                contract,
            ) == s.plans[plan_id].price
        },
        !(start + s.plans[plan_id].duration_secs <= u64::MAX && i128::MIN <= s.total_revenue
            + s.plans[plan_id].price <= i128::MAX) ==> {
            &&& s.subscribe_result(now, player, plan_id) == Err::<u64, Error>(Error::Overflow)
            &&& s.after_subscribe(now, player, plan_id) == s
            &&& s.subscribe_asks(now, contract, player, plan_id) =~= seq![
                Effect::RequireAuth(player),
                Effect::Transfer {
                    token: s.config->0.token,
                    from: player,
                    to: contract,
                    amount: s.plans[plan_id].price,
                },
            ]
        },
{
    reveal_with_fuel(moved, 7);
}

/// Where there is no contract or no such active plan, nothing is sold and
/// nothing is paid.
pub proof fn law_nothing_else_is_sold(
    s: GameSubscriptionState,
    now: u64,
    contract: Address,
    player: Address,
    plan_id: u32,
)
    ensures
        s.config is None ==> s.subscribe_result(now, player, plan_id) == Err::<u64, Error>(
            Error::NotInitialized,
        ) && s.subscribe_asks(now, contract, player, plan_id) =~= Seq::<
            Effect<DataKey, Event>,
        >::empty(),
        s.config is Some && (!s.plans.contains_key(plan_id) || !s.plans[plan_id].is_active)
            ==> s.subscribe_result(now, player, plan_id) == Err::<u64, Error>(Error::PlanNotFound)
            && s.subscribe_asks(now, contract, player, plan_id) =~= seq![
            Effect::RequireAuth(player),
        ],
        s.subscribe_result(now, player, plan_id) is Err ==> s.after_subscribe(now, player, plan_id)
            == s,
{
}

/// A player is subscribed exactly as long as an end is written for them that
/// lies ahead.
pub proof fn law_subscribed_until_the_end(s: GameSubscriptionState, now: u64, player: Address)
    ensures
        s.subscribed(now, player) <==> s.subscriptions.contains_key(player)
            && s.subscriptions[player].expires_ts > now,
        s.subscriptions.contains_key(player) ==> s.expiry(player)
            == s.subscriptions[player].expires_ts,
{
}

} // verus!
