//! Live odds on game events. An oracle posts how likely each outcome of a
//! market is, in basis points, and anyone may read the odds.
//!
//! The admin calls `init` and names the oracle. The oracle posts odds with
//! `post_odds` as often as they change, until the admin or the oracle closes
//! the market with `close_market`. From then on the last odds stand.

use vstd::prelude::*;

use crate::address::{Address, Key, Symbol};
use crate::bps;
use crate::env::{bumped, Effect, Env};
use crate::table::Table;

verus! {

/// The most that the odds of a market may add up to, in basis points. A book
/// may promise more than the whole, but no more than twice as much.
pub const MAX_TOTAL_BPS: u32 = 20_000;

#[derive(Copy, Clone, Debug, Eq, PartialEq, PartialOrd, Ord)]
pub enum Error {
    AlreadyInitialized,
    NotInitialized,
    NotAuthorized,
    MarketNotFound,
    InvalidOdds,
    MarketClosed,
}

impl Error {
    /// The number by which callers of the contract know the error.
    pub fn code(self) -> (code: u32)
        ensures
            code == match self {
                Error::AlreadyInitialized => 1u32,
                Error::NotInitialized => 2,
                Error::NotAuthorized => 3,
                Error::MarketNotFound => 4,
                Error::InvalidOdds => 5,
                Error::MarketClosed => 6,
            },
    {
        match self {
            Error::AlreadyInitialized => 1,
            Error::NotInitialized => 2,
            Error::NotAuthorized => 3,
            Error::MarketNotFound => 4,
            Error::InvalidOdds => 5,
            Error::MarketClosed => 6,
        }
    }
}

/// The names of the contract's ledger entries.
#[derive(Clone, Copy, Debug, Eq, PartialEq)]
pub enum DataKey {
    Admin,
    Oracle,
    Market(Symbol),
}

#[derive(Clone, Copy, Debug, Eq, PartialEq)]
pub struct OddsEntry {
    pub outcome_label: Symbol,
    /// How likely the outcome is, in basis points from 0 to 10 000.
    pub implied_prob_bps: u32,
}

#[derive(Debug, Eq, PartialEq)]
pub struct MarketOdds {
    pub market_id: Symbol,
    pub outcomes: Vec<OddsEntry>,
    pub last_updated_ts: u64,
    pub is_open: bool,
}

/// The odds of a market, with its outcomes as a sequence.
#[verifier::ext_equal]
pub struct MarketOddsView {
    pub market_id: Symbol,
    pub outcomes: Seq<OddsEntry>,
    pub last_updated_ts: u64,
    pub is_open: bool,
}

impl View for MarketOdds {
    type V = MarketOddsView;

    open spec fn view(&self) -> MarketOddsView {
        MarketOddsView {
            market_id: self.market_id,
            outcomes: self.outcomes@,
            last_updated_ts: self.last_updated_ts,
            is_open: self.is_open,
        }
    }
}

impl Clone for MarketOdds {
    fn clone(&self) -> (r: Self)
        ensures
            r@ == self@,
    {
        let outcomes: Vec<OddsEntry> = self.outcomes.clone();
        assert(outcomes@ =~= self.outcomes@);
        MarketOdds {
            market_id: self.market_id,
            outcomes,
            last_updated_ts: self.last_updated_ts,
            is_open: self.is_open,
        }
    }
}

#[derive(Clone, Copy, Debug, Eq, PartialEq)]
pub struct OddsPosted {
    pub market_id: Symbol,
    pub last_updated_ts: u64,
}

#[derive(Clone, Copy, Debug, Eq, PartialEq)]
pub struct MarketClosed {
    pub market_id: Symbol,
}

#[derive(Clone, Copy, Debug, Eq, PartialEq)]
pub enum Event {
    OddsPosted(OddsPosted),
    MarketClosed(MarketClosed),
}

/// What `init` writes.
#[derive(Clone, Copy, Debug, Eq, PartialEq)]
pub struct Config {
    pub admin: Address,
    pub oracle: Address,
}

/// The contract's ledger entries.
pub struct LiveOdds {
    pub config: Option<Config>,
    pub markets: Table<Symbol, MarketOdds>,
}

/// The contract's ledger entries as maps.
#[verifier::ext_equal]
pub struct LiveOddsState {
    pub config: Option<Config>,
    pub markets: Map<Symbol, MarketOddsView>,
}

impl View for LiveOdds {
    type V = LiveOddsState;

    open spec fn view(&self) -> LiveOddsState {
        LiveOddsState { config: self.config, markets: self.markets@ }
    }
}

/// What the odds add up to.
pub open spec fn total_bps(outcomes: Seq<OddsEntry>) -> nat
    decreases outcomes.len(),
{
    if outcomes.len() == 0 {
        0
    } else {
        total_bps(outcomes.drop_last()) + outcomes.last().implied_prob_bps as nat
    }
}

/// The odds give some outcome a chance, none more than certainty, and do not
/// add up to too much.
pub open spec fn valid_odds(outcomes: Seq<OddsEntry>) -> bool {
    &&& forall|i: int|
        0 <= i < outcomes.len() ==> (#[trigger] outcomes[i]).implied_prob_bps <= bps::WHOLE_BPS
    &&& 1 <= total_bps(outcomes) <= MAX_TOTAL_BPS
}

fn check_odds(outcomes: &Vec<OddsEntry>) -> (r: bool)
    ensures
        r == valid_odds(outcomes@),
{
    let mut total: u32 = 0;
    let mut i: usize = 0;
    while i < outcomes.len()
        invariant
            i <= outcomes.len(),
            forall|j: int|
                0 <= j < i ==> (#[trigger] outcomes@[j]).implied_prob_bps <= bps::WHOLE_BPS,
            total == if total_bps(outcomes@.take(i as int)) <= u32::MAX {
                total_bps(outcomes@.take(i as int))
            } else {
                u32::MAX as nat
            },
        decreases outcomes.len() - i,
    {
        if outcomes[i].implied_prob_bps > bps::WHOLE_BPS {
            return false;
        }
        assert(outcomes@.take(i + 1).drop_last() =~= outcomes@.take(i as int));
        total = total.saturating_add(outcomes[i].implied_prob_bps);
        i = i + 1;
    }
    assert(outcomes@.take(i as int) =~= outcomes@);
    total != 0 && total <= MAX_TOTAL_BPS
}

impl LiveOddsState {
    /// The ledger before `init`.
    pub open spec fn empty() -> Self {
        LiveOddsState { config: None, markets: Map::empty() }
    }

    /// The request for an authorisation, once there is a contract to call.
    pub open spec fn auth_asks(self, address: Address) -> Seq<Effect<DataKey, Event>> {
        if self.config is Some {
            seq![Effect::RequireAuth(address)]
        } else {
            seq![]
        }
    }

    /// Only the oracle may go on.
    pub open spec fn oracle_result(self, caller: Address) -> Result<(), Error> {
        match self.config {
            None => Err(Error::NotInitialized),
            Some(config) => if caller == config.oracle {
                Ok(())
            } else {
                Err(Error::NotAuthorized)
            },
        }
    }

    /// The market has been closed.
    pub open spec fn closed(self, market_id: Symbol) -> bool {
        self.markets.contains_key(market_id) && !self.markets[market_id].is_open
    }

    pub open spec fn init_result(self) -> Result<(), Error> {
        if self.config is Some {
            Err(Error::AlreadyInitialized)
        } else {
            Ok(())
        }
    }

    pub open spec fn after_init(self, config: Config) -> Self {
        if self.init_result() is Ok {
            LiveOddsState { config: Some(config), ..self }
        } else {
            self
        }
    }

    pub open spec fn init_asks(self, admin: Address) -> Seq<Effect<DataKey, Event>> {
        if self.init_result() is Ok {
            seq![
                Effect::RequireAuth(admin),
                Effect::Store(DataKey::Admin),
                Effect::Store(DataKey::Oracle),
            ]
        } else {
            seq![]
        }
    }

    pub open spec fn post_result(
        self,
        oracle: Address,
        market_id: Symbol,
        outcomes: Seq<OddsEntry>,
    ) -> Result<(), Error> {
        match self.oracle_result(oracle) {
            Err(e) => Err(e),
            Ok(_) => if !valid_odds(outcomes) {
                Err(Error::InvalidOdds)
            } else if self.closed(market_id) {
                Err(Error::MarketClosed)
            } else {
                Ok(())
            },
        }
    }

    pub open spec fn after_post(
        self,
        now: u64,
        oracle: Address,
        market_id: Symbol,
        outcomes: Seq<OddsEntry>,
    ) -> Self {
        if self.post_result(oracle, market_id, outcomes) is Ok {
            LiveOddsState {
                markets: self.markets.insert(
                    market_id,
                    MarketOddsView { market_id, outcomes, last_updated_ts: now, is_open: true },
                ),
                ..self
            }
        } else {
            self
        }
    }

    pub open spec fn post_asks(
        self,
        now: u64,
        oracle: Address,
        market_id: Symbol,
        outcomes: Seq<OddsEntry>,
    ) -> Seq<Effect<DataKey, Event>> {
        self.auth_asks(oracle) + if self.post_result(oracle, market_id, outcomes) is Ok {
            seq![
                Effect::Store(DataKey::Market(market_id)),
                bumped(DataKey::Market(market_id)),
                Effect::Publish(
                    Event::OddsPosted(OddsPosted { market_id, last_updated_ts: now }),
                ),
            ]
        } else {
            seq![]
        }
    }

    pub open spec fn close_result(self, caller: Address, market_id: Symbol) -> Result<(), Error> {
        match self.config {
            None => Err(Error::NotInitialized),
            Some(config) => if caller != config.admin && caller != config.oracle {
                Err(Error::NotAuthorized)
            } else if !self.markets.contains_key(market_id) {
                Err(Error::MarketNotFound)
            } else {
                Ok(())
            },
        }
    }

    pub open spec fn after_close(self, caller: Address, market_id: Symbol) -> Self {
        if self.close_result(caller, market_id) is Ok {
            LiveOddsState {
                markets: self.markets.insert(
                    market_id,
                    MarketOddsView { is_open: false, ..self.markets[market_id] },
                ),
                ..self
            }
        } else {
            self
        }
    }

    pub open spec fn close_asks(self, caller: Address, market_id: Symbol) -> Seq<
        Effect<DataKey, Event>,
    > {
        self.auth_asks(caller) + if self.close_result(caller, market_id) is Ok {
            seq![
                Effect::Store(DataKey::Market(market_id)),
                Effect::Publish(Event::MarketClosed(MarketClosed { market_id })),
            ]
        } else {
            seq![]
        }
    }
}

impl LiveOdds {
    /// The contract before `init`.
    pub fn new() -> (odds: Self)
        ensures
            odds@ == LiveOddsState::empty(),
    {
        LiveOdds { config: None, markets: Table::new() }
    }

    /// Asks for the caller's authorisation, and refuses anyone but the oracle.
    pub fn require_oracle(&self, env: &mut Env<DataKey, Event>, caller: Address) -> (r: Result<
        (),
        Error,
    >)
        ensures
            r == self@.oracle_result(caller),
            final(env).after(*old(env), self@.auth_asks(caller)),
    {
        match &self.config {
            None => Err(Error::NotInitialized),
            Some(config) => {
                env.require_auth(caller);
                if caller.same(&config.oracle) {
                    Ok(())
                } else {
                    Err(Error::NotAuthorized)
                }
            },
        }
    }

    pub fn init(
        &mut self,
        env: &mut Env<DataKey, Event>,
        admin: Address,
        oracle: Address,
    ) -> (r: Result<(), Error>)
        ensures
            r is Err ==> final(self)@ == old(self)@,
            r == old(self)@.init_result(),
            final(self)@ == old(self)@.after_init(Config { admin, oracle }),
            final(env).after(*old(env), old(self)@.init_asks(admin)),
    {
        if self.config.is_some() {
            return Err(Error::AlreadyInitialized);
        }
        env.require_auth(admin);
        self.config = Some(Config { admin, oracle });
        env.store(DataKey::Admin);
        env.store(DataKey::Oracle);
        Ok(())
    }

    /// The oracle posts the odds of a market, in place of those before.
    pub fn post_odds(
        &mut self,
        env: &mut Env<DataKey, Event>,
        oracle: Address,
        market_id: Symbol,
        outcomes: Vec<OddsEntry>,
    ) -> (r: Result<(), Error>)
        ensures
            r is Err ==> final(self)@ == old(self)@,
            r == old(self)@.post_result(oracle, market_id, outcomes@),
            final(self)@ == old(self)@.after_post(
                old(env).timestamp,
                oracle,
                market_id,
                outcomes@,
            ),
            final(env).after(
                *old(env),
                old(self)@.post_asks(old(env).timestamp, oracle, market_id, outcomes@),
            ),
    {
        if let Err(e) = self.require_oracle(env, oracle) {
            return Err(e);
        }
        if !check_odds(&outcomes) {
            return Err(Error::InvalidOdds);
        }
        if let Some(market) = self.markets.get(&market_id) {
            if !market.is_open {
                return Err(Error::MarketClosed);
            }
        }
        let now: u64 = env.timestamp;
        self.markets.set(
            market_id,
            MarketOdds { market_id, outcomes, last_updated_ts: now, is_open: true },
        );
        env.store(DataKey::Market(market_id));
        env.bump(DataKey::Market(market_id));
        env.publish(Event::OddsPosted(OddsPosted { market_id, last_updated_ts: now }));
        Ok(())
    }

    /// The admin or the oracle closes a market: its odds are final.
    pub fn close_market(
        &mut self,
        env: &mut Env<DataKey, Event>,
        caller: Address,
        market_id: Symbol,
    ) -> (r: Result<(), Error>)
        ensures
            r is Err ==> final(self)@ == old(self)@,
            r == old(self)@.close_result(caller, market_id),
            final(self)@ == old(self)@.after_close(caller, market_id),
            final(env).after(*old(env), old(self)@.close_asks(caller, market_id)),
    {
        let config: Config = match &self.config {
            Some(config) => *config,
            None => {
                return Err(Error::NotInitialized);
            },
        };
        env.require_auth(caller);
        if !caller.same(&config.admin) && !caller.same(&config.oracle) {
            return Err(Error::NotAuthorized);
        }
        let mut market: MarketOdds = match self.markets.get(&market_id) {
            Some(market) => market.clone(),
            None => {
                return Err(Error::MarketNotFound);
            },
        };
        market.is_open = false;
        self.markets.set(market_id, market);
        env.store(DataKey::Market(market_id));
        env.publish(Event::MarketClosed(MarketClosed { market_id }));
        Ok(())
    }

    pub fn get_odds(&self, market_id: Symbol) -> (r: Result<MarketOdds, Error>)
        ensures
            match r {
                Ok(market) => self@.markets.contains_key(market_id) && market@
                    == self@.markets[market_id],
                Err(e) => !self@.markets.contains_key(market_id) && e == Error::MarketNotFound,
            },
    {
        match self.markets.get(&market_id) {
            Some(market) => Ok(market.clone()),
            None => Err(Error::MarketNotFound),
        }
    }

    pub fn get_oracle(&self) -> (oracle: Address)
        requires
            self@.config is Some,
        ensures
            oracle == self@.config->0.oracle,
    {
        self.config.unwrap().oracle
    }
}

/// One call that may change the contract's ledger entries.
pub enum Call {
    Init { config: Config },
    PostOdds { now: u64, oracle: Address, market_id: Symbol, outcomes: Seq<OddsEntry> },
    CloseMarket { caller: Address, market_id: Symbol },
}

impl LiveOddsState {
    pub open spec fn step(self, call: Call) -> Self {
        match call {
            Call::Init { config } => self.after_init(config),
            Call::PostOdds { now, oracle, market_id, outcomes } => self.after_post(
                now,
                oracle,
                market_id,
                outcomes,
            ),
            Call::CloseMarket { caller, market_id } => self.after_close(caller, market_id),
        }
    }

    /// What becomes of the ledger when calls are made one after the other.
    pub open spec fn run(self, calls: Seq<Call>) -> Self
        decreases calls.len(),
    {
        if calls.len() == 0 {
            self
        } else {
            self.run(calls.drop_last()).step(calls.last())
        }
    }

    /// What the `init` among these calls set, if one succeeded.
    pub open spec fn config_set(self, calls: Seq<Call>) -> Option<Config>
        decreases calls.len(),
    {
        if calls.len() == 0 {
            None
        } else {
            let before = self.config_set(calls.drop_last());
            match calls.last() {
                Call::Init { config } => if self.run(calls.drop_last()).init_result() is Ok {
                    Some(config)
                } else {
                    before
                },
                _ => before,
            }
        }
    }

    /// Every market is stored under its name and has valid odds.
    pub open spec fn sound(self) -> bool {
        forall|id: Symbol| #[trigger]
            self.markets.contains_key(id) ==> self.markets[id].market_id == id && valid_odds(
                self.markets[id].outcomes,
            )
    }
}

/// A contract is set up once: its admin and oracle stay who they are, and
/// setting it up again is refused.
pub proof fn law_set_up_once(s: LiveOddsState, calls: Seq<Call>)
    requires
        s.config is Some,
    ensures
        s.run(calls).config == s.config,
        s.run(calls).init_result() == Err::<(), Error>(Error::AlreadyInitialized),
    decreases calls.len(),
{
    if calls.len() > 0 {
        law_set_up_once(s, calls.drop_last());
    }
}

/// Only the oracle posts odds, only the admin or the oracle closes a market,
/// and each only with their own authorisation.
pub proof fn law_only_the_authorised(
    s: LiveOddsState,
    now: u64,
    caller: Address,
    market_id: Symbol,
    outcomes: Seq<OddsEntry>,
)
    ensures
        s.post_result(caller, market_id, outcomes) is Ok ==> s.config is Some && caller
            == s.config->0.oracle && s.post_asks(now, caller, market_id, outcomes)[0] == Effect::<
            DataKey,
            Event,
        >::RequireAuth(caller),
        s.close_result(caller, market_id) is Ok ==> s.config is Some && (caller
            == s.config->0.admin || caller == s.config->0.oracle) && s.close_asks(
            caller,
            market_id,
        )[0] == Effect::<DataKey, Event>::RequireAuth(caller),
{
}

/// From an empty ledger, whatever calls were made, the check for the oracle
/// knows no oracle until an `init` succeeds. From then on it asks for the
/// caller's authorisation and lets nobody through but the oracle whom that
/// `init` set.
pub proof fn law_oracle_check(calls: Seq<Call>, caller: Address)
    ensures
        LiveOddsState::empty().run(calls).config == LiveOddsState::empty().config_set(calls),
        LiveOddsState::empty().run(calls).oracle_result(caller)
            == match LiveOddsState::empty().config_set(calls) {
            None => Err::<(), Error>(Error::NotInitialized),
            Some(config) => if caller == config.oracle {
                Ok(())
            } else {
                Err(Error::NotAuthorized)
            },
        },
        LiveOddsState::empty().run(calls).auth_asks(caller)
            == match LiveOddsState::empty().config_set(calls) {
            None => Seq::<Effect<DataKey, Event>>::empty(),
            Some(_) => seq![Effect::RequireAuth(caller)],
        },
    decreases calls.len(),
{
    if calls.len() > 0 {
        law_oracle_check(calls.drop_last(), caller);
    }
}

/// A post or a close that is refused changes nothing and asks for no more than
/// the caller's authorisation.
pub proof fn law_refused_without_effect(
    s: LiveOddsState,
    now: u64,
    caller: Address,
    market_id: Symbol,
    outcomes: Seq<OddsEntry>,
)
    ensures
        s.post_result(caller, market_id, outcomes) is Err ==> s.after_post(
            now,
            caller,
            market_id,
            outcomes,
        ) == s && s.post_asks(now, caller, market_id, outcomes) =~= s.auth_asks(caller),
        s.close_result(caller, market_id) is Err ==> s.after_close(caller, market_id) == s
            && s.close_asks(caller, market_id) =~= s.auth_asks(caller),
{
}

/// Odds that were posted are the odds of the market, as of the time of the
/// post, and no other market is touched.
pub proof fn law_posted_odds_are_served(
    s: LiveOddsState,
    now: u64,
    oracle: Address,
    market_id: Symbol,
    outcomes: Seq<OddsEntry>,
    other: Symbol,
)
    requires
        s.post_result(oracle, market_id, outcomes) is Ok,
        other != market_id,
    ensures
        s.after_post(now, oracle, market_id, outcomes).markets.contains_key(market_id),
        s.after_post(now, oracle, market_id, outcomes).markets[market_id] == (MarketOddsView {
            market_id,
            outcomes,
            last_updated_ts: now,
            is_open: true,
        }),
        s.after_post(now, oracle, market_id, outcomes).markets.contains_key(other)
            == s.markets.contains_key(other),
        s.after_post(now, oracle, market_id, outcomes).markets[other] == s.markets[other],
{
}

/// Closing a market changes nothing of its odds.
pub proof fn law_closing_keeps_odds(s: LiveOddsState, caller: Address, market_id: Symbol)
    requires
        s.close_result(caller, market_id) is Ok,
    ensures
        s.after_close(caller, market_id).closed(market_id),
        s.after_close(caller, market_id).markets[market_id] == (MarketOddsView {
            is_open: false,
            ..s.markets[market_id]
        }),
{
}

/// Once a market is closed its odds are final: whatever calls follow, it
/// stays closed with the same odds, and posts are refused.
pub proof fn law_closed_for_good(
    s: LiveOddsState,
    calls: Seq<Call>,
    market_id: Symbol,
    oracle: Address,
    outcomes: Seq<OddsEntry>,
)
    requires
        s.closed(market_id),
    ensures
        s.run(calls).closed(market_id),
        s.run(calls).markets[market_id] == s.markets[market_id],
        s.run(calls).post_result(oracle, market_id, outcomes) is Err,
    decreases calls.len(),
{
    if calls.len() > 0 {
        law_closed_for_good(s, calls.drop_last(), market_id, oracle, outcomes);
    }
}

/// In every state that calls can lead to, the odds of each market give some
/// outcome a chance, none more than certainty, and do not add up to too much.
pub proof fn law_odds_are_valid(calls: Seq<Call>)
    ensures
        LiveOddsState::empty().run(calls).sound(),
    decreases calls.len(),
{
    if calls.len() > 0 {
        law_odds_are_valid(calls.drop_last());
    }
}

/// Before anything is called the ledger holds nothing.
pub proof fn law_starts_empty()
    ensures
        LiveOddsState::empty().config is None,
        LiveOddsState::empty().markets == Map::<Symbol, MarketOddsView>::empty(),
{
}

/// Nobody is asked for an authorisation before the contract is set up. From
/// then on the caller is.
pub proof fn law_caller_is_asked(s: LiveOddsState, caller: Address)
    ensures
        s.config is None ==> s.auth_asks(caller) == Seq::<Effect<DataKey, Event>>::empty(),
        s.config is Some ==> s.auth_asks(caller) =~= seq![Effect::RequireAuth(caller)],
{
}

/// A contract that is not set up yet is set up as asked: what `init`
/// was given is written, nothing else changes, and the admin is asked for.
/// Otherwise nothing is written.
pub proof fn law_init_sets_up(s: LiveOddsState, config: Config)
    ensures
        s.config is None ==> {
            &&& s.init_result() == Ok::<(), Error>(())
            &&& s.after_init(config) == (LiveOddsState { config: Some(config), ..s })
            &&& s.init_asks(config.admin) =~= seq![
                Effect::RequireAuth(config.admin),
                Effect::Store(DataKey::Admin),
                Effect::Store(DataKey::Oracle),
            ]
        },
        s.config is Some ==> {
            &&& s.init_result() == Err::<(), Error>(Error::AlreadyInitialized)
            &&& s.after_init(config) == s
            &&& s.init_asks(config.admin) =~= Seq::<Effect<DataKey, Event>>::empty()
        },
{
}

/// No odds add up to nothing, and one more outcome adds its own.
pub proof fn law_total_adds(outcomes: Seq<OddsEntry>, entry: OddsEntry)
    ensures
        total_bps(Seq::<OddsEntry>::empty()) == 0,
        total_bps(outcomes.push(entry)) == total_bps(outcomes) + entry.implied_prob_bps,
{
    assert(outcomes.push(entry).drop_last() =~= outcomes);
}

/// Odds are valid exactly if no outcome has more than 10 000 basis points and
/// all of them together have some, and no more than 20 000.
pub proof fn law_valid_odds(outcomes: Seq<OddsEntry>)
    ensures
        valid_odds(outcomes) <==> 1 <= total_bps(outcomes) <= 20_000 && forall|i: int|
            0 <= i < outcomes.len() ==> (#[trigger] outcomes[i]).implied_prob_bps <= 10_000,
{
}

/// Valid odds of a market that is new or open are taken from the oracle as
/// they are, with the time of the post.
pub proof fn law_oracle_may_post(
    s: LiveOddsState,
    now: u64,
    oracle: Address,
    market_id: Symbol,
    outcomes: Seq<OddsEntry>,
)
    requires
        s.config is Some,
        oracle == s.config->0.oracle,
        valid_odds(outcomes),
        s.markets.contains_key(market_id) ==> s.markets[market_id].is_open,
    ensures
        s.post_result(oracle, market_id, outcomes) == Ok::<(), Error>(()),
        s.after_post(now, oracle, market_id, outcomes) == (LiveOddsState {
            markets: s.markets.insert(
                market_id,
                MarketOddsView { market_id, outcomes, last_updated_ts: now, is_open: true },
            ),
            ..s
        }),
        s.post_asks(now, oracle, market_id, outcomes) =~= seq![
            Effect::RequireAuth(oracle),
            Effect::Store(DataKey::Market(market_id)),
            Effect::ExtendTtl {
                key: DataKey::Market(market_id),
                threshold: 518_400,
                extend_to: 518_400,
            },
            Effect::Publish(Event::OddsPosted(OddsPosted { market_id, last_updated_ts: now })),
        ],
{
}

/// A post is refused only for one of four reasons, each with its own error.
pub proof fn law_post_is_refused_for_a_reason(
    s: LiveOddsState,
    oracle: Address,
    market_id: Symbol,
    outcomes: Seq<OddsEntry>,
)
    ensures
        s.config is None ==> s.post_result(oracle, market_id, outcomes) == Err::<(), Error>(
            Error::NotInitialized,
        ),
        s.config is Some && oracle != s.config->0.oracle ==> s.post_result(
            oracle,
            market_id,
            outcomes,
        ) == Err::<(), Error>(Error::NotAuthorized),
        s.config is Some && oracle == s.config->0.oracle && !valid_odds(outcomes)
            ==> s.post_result(oracle, market_id, outcomes) == Err::<(), Error>(Error::InvalidOdds),
        s.config is Some && oracle == s.config->0.oracle && valid_odds(outcomes)
            && s.markets.contains_key(market_id) && !s.markets[market_id].is_open
            ==> s.post_result(oracle, market_id, outcomes) == Err::<(), Error>(Error::MarketClosed),
{
}

/// The admin and the oracle may close every market there is, open or closed,
/// and nobody else may.
pub proof fn law_market_can_be_closed(s: LiveOddsState, caller: Address, market_id: Symbol)
    ensures
        s.config is None ==> s.close_result(caller, market_id) == Err::<(), Error>(
            Error::NotInitialized,
        ),
        s.config is Some && caller != s.config->0.admin && caller != s.config->0.oracle
            ==> s.close_result(caller, market_id) == Err::<(), Error>(Error::NotAuthorized),
        s.config is Some && (caller == s.config->0.admin || caller == s.config->0.oracle)
            && !s.markets.contains_key(market_id) ==> s.close_result(caller, market_id) == Err::<
            (),
            Error,
        >(Error::MarketNotFound),
        s.config is Some && (caller == s.config->0.admin || caller == s.config->0.oracle)
            && s.markets.contains_key(market_id) ==> {
            &&& s.close_result(caller, market_id) == Ok::<(), Error>(())
            &&& s.after_close(caller, market_id) == (LiveOddsState {
                markets: s.markets.insert(
                    market_id,
                    MarketOddsView { is_open: false, ..s.markets[market_id] },
                ),
                ..s
            })
            &&& s.close_asks(caller, market_id) =~= seq![
                Effect::RequireAuth(caller),
                Effect::Store(DataKey::Market(market_id)),
                Effect::Publish(Event::MarketClosed(MarketClosed { market_id })),
            ]
        },
{
}

} // verus!
