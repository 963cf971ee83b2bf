//! Exchange of game points for tokens. The admin funds the contract and sets
//! the rate; players redeem the points that were recorded for them.
//!
//! The admin calls `init` with the token and the rate, and `fund` to deposit
//! tokens. Points come in through `record_points`, and players call `redeem`.

use vstd::prelude::*;

use crate::address::{Address, Key};
use crate::env::{bumped, moved, Effect, Env};
use crate::table::Table;

verus! {

#[derive(Copy, Clone, Debug, Eq, PartialEq, PartialOrd, Ord)]
pub enum Error {
    AlreadyInitialized,
    NotInitialized,
    NotAuthorized,
    InsufficientPoints,
    InsufficientFunds,
    InvalidAmount,
    Overflow,
}

impl Error {
    /// The number by which callers of the contract know the error.
    pub fn code(self) -> (code: u32)
        ensures
            code == match self {
                Error::AlreadyInitialized => 1u32,
                Error::NotInitialized => 2,
                Error::NotAuthorized => 3,
                Error::InsufficientPoints => 4,
                Error::InsufficientFunds => 5,
                Error::InvalidAmount => 6,
                Error::Overflow => 7,
            },
    {
        match self {
            Error::AlreadyInitialized => 1,
            Error::NotInitialized => 2,
            Error::NotAuthorized => 3,
            Error::InsufficientPoints => 4,
            Error::InsufficientFunds => 5,
            Error::InvalidAmount => 6,
            Error::Overflow => 7,
        }
    }
}

/// The names of the contract's ledger entries.
#[derive(Clone, Copy, Debug, Eq, PartialEq)]
pub enum DataKey {
    Admin,
    Token,
    PointsPerToken,
    PlayerPoints(Address),
    TotalRedeemed,
}

#[derive(Clone, Copy, Debug, Eq, PartialEq)]
pub struct PointsRecorded {
    pub player: Address,
    pub points_added: u64,
    pub total_points: u64,
}

#[derive(Clone, Copy, Debug, Eq, PartialEq)]
pub struct PointsRedeemed {
    pub player: Address,
    pub points_spent: u64,
    pub tokens_received: i128,
}

#[derive(Clone, Copy, Debug, Eq, PartialEq)]
pub enum Event {
    PointsRecorded(PointsRecorded),
    PointsRedeemed(PointsRedeemed),
}

/// What `init` writes.
#[derive(Clone, Copy, Debug, Eq, PartialEq)]
pub struct Config {
    pub admin: Address,
    pub token: Address,
    /// How many points one token unit costs.
    pub points_per_token: u64,
}

/// The contract's ledger entries.
pub struct PointsExchange {
    pub config: Option<Config>,
    pub player_points: Table<Address, u64>,
    pub total_redeemed: i128,
}

/// The contract's ledger entries as maps.
#[verifier::ext_equal]
pub struct PointsExchangeState {
    pub config: Option<Config>,
    pub player_points: Map<Address, u64>,
    pub total_redeemed: i128,
}

impl View for PointsExchange {
    type V = PointsExchangeState;

    open spec fn view(&self) -> PointsExchangeState {
        PointsExchangeState {
            config: self.config,
            player_points: self.player_points@,
            total_redeemed: self.total_redeemed,
        }
    }
}

impl PointsExchangeState {
    /// The ledger before `init`.
    pub open spec fn empty() -> Self {
        PointsExchangeState { config: None, player_points: Map::empty(), total_redeemed: 0 }
    }

    /// The request for an authorisation, once there is a contract to call.
    pub open spec fn auth_asks(self, address: Address) -> Seq<Effect<DataKey, Event>> {
        if self.config is Some {
            seq![Effect::RequireAuth(address)]
        } else {
            seq![]
        }
    }

    /// Only the admin may go on.
    pub open spec fn admin_result(self, caller: Address) -> Result<(), Error> {
        match self.config {
            None => Err(Error::NotInitialized),
            Some(config) => if caller == config.admin {
                Ok(())
            } else {
                Err(Error::NotAuthorized)
            },
        }
    }

    /// Tokens cost points.
    pub open spec fn rate_positive(self) -> bool {
        self.config is Some ==> self.config->0.points_per_token > 0
    }

    pub open spec fn init_result(self, config: Config) -> Result<(), Error> {
        if self.config is Some {
            Err(Error::AlreadyInitialized)
        } else if config.points_per_token == 0 {
            Err(Error::InvalidAmount)
        } else {
            Ok(())
        }
    }

    pub open spec fn after_init(self, config: Config) -> Self {
        if self.init_result(config) is Ok {
            PointsExchangeState { config: Some(config), ..self }
        } else {
            self
        }
    }

    pub open spec fn init_asks(self, config: Config) -> Seq<Effect<DataKey, Event>> {
        if self.config is Some {
            seq![]
        } else if self.init_result(config) is Err {
            seq![Effect::RequireAuth(config.admin)]
        } else {
            seq![
                Effect::RequireAuth(config.admin),
                Effect::Store(DataKey::Admin),
                Effect::Store(DataKey::Token),
                Effect::Store(DataKey::PointsPerToken),
            ]
        }
    }

    pub open spec fn fund_result(self, admin: Address, amount: i128) -> Result<(), Error> {
        match self.admin_result(admin) {
            Err(e) => Err(e),
            Ok(_) => if amount <= 0 {
                Err(Error::InvalidAmount)
            } else {
                Ok(())
            },
        }
    }

    pub open spec fn fund_asks(self, contract: Address, admin: Address, amount: i128) -> Seq<
        Effect<DataKey, Event>,
    > {
        self.auth_asks(admin) + if self.fund_result(admin, amount) is Ok {
            seq![
                Effect::Transfer {
                    token: self.config->0.token,
                    from: admin,
                    to: contract,
                    amount,
                },
            ]
        } else {
            seq![]
        }
    }

    pub open spec fn set_rate_result(self, admin: Address, points_per_token: u64) -> Result<
        (),
        Error,
    > {
        match self.admin_result(admin) {
            Err(e) => Err(e),
            Ok(_) => if points_per_token == 0 {
                Err(Error::InvalidAmount)
            } else {
                Ok(())
            },
        }
    }

    pub open spec fn after_set_rate(self, admin: Address, points_per_token: u64) -> Self {
        if self.set_rate_result(admin, points_per_token) is Ok {
            PointsExchangeState {
                config: Some(Config { points_per_token, ..self.config->0 }),
                ..self
            }
        } else {
            self
        }
    }

    pub open spec fn set_rate_asks(self, admin: Address, points_per_token: u64) -> Seq<
        Effect<DataKey, Event>,
    > {
        self.auth_asks(admin) + if self.set_rate_result(admin, points_per_token) is Ok {
            seq![Effect::Store(DataKey::PointsPerToken)]
        } else {
            seq![]
        }
    }

    /// The points that a player has.
    pub open spec fn points(self, player: Address) -> u64 {
        if self.player_points.contains_key(player) {
            self.player_points[player]
        } else {
            0
        }
    }

    /// The points that a player has with more of them.
    pub open spec fn record_result(self, caller: Address, player: Address, points: u64) -> Result<
        u64,
        Error,
    > {
        match self.admin_result(caller) {
            Err(e) => Err(e),
            Ok(_) => if self.points(player) + points > u64::MAX {
                Err(Error::Overflow)
            } else {
                Ok((self.points(player) + points) as u64)
            },
        }
    }

    pub open spec fn after_record(self, caller: Address, player: Address, points: u64) -> Self {
        match self.record_result(caller, player, points) {
            Ok(total) => PointsExchangeState {
                player_points: self.player_points.insert(player, total),
                ..self
            },
            Err(_) => self,
        }
    }

    pub open spec fn record_asks(self, caller: Address, player: Address, points: u64) -> Seq<
        Effect<DataKey, Event>,
    > {
        self.auth_asks(caller) + match self.record_result(caller, player, points) {
            Ok(total) => seq![
                Effect::Store(DataKey::PlayerPoints(player)),
                bumped(DataKey::PlayerPoints(player)),
                Effect::Publish(
                    Event::PointsRecorded(
                        PointsRecorded { player, points_added: points, total_points: total },
                    ),
                ),
            ],
            Err(_) => seq![],
        }
    }

    /// The whole token units that some points buy.
    pub open spec fn token_units(self, points: u64) -> int {
        points as int / self.config->0.points_per_token as int
    }

    pub open spec fn redeem_result(self, player: Address, points: u64) -> Result<i128, Error> {
        if self.config is None {
            Err(Error::NotInitialized)
        } else if points == 0 {
            Err(Error::InvalidAmount)
        } else if self.points(player) < points {
            Err(Error::InsufficientPoints)
        } else if self.token_units(points) == 0 {
            Err(Error::InvalidAmount)
        } else if self.total_redeemed + self.token_units(points) > i128::MAX {
            Err(Error::Overflow)
        } else {
            Ok(self.token_units(points) as i128)
        }
    }

    pub open spec fn after_redeem(self, player: Address, points: u64) -> Self {
        match self.redeem_result(player, points) {
            Ok(units) => PointsExchangeState {
                player_points: self.player_points.insert(
                    player,
                    (self.points(player) - points) as u64,
                ),
                total_redeemed: (self.total_redeemed + units) as i128,
                ..self
            },
            Err(_) => self,
        }
    }

    /// The tokens go from the contract to the player, after the points are gone.
    pub open spec fn redeem_asks(self, contract: Address, player: Address, points: u64) -> Seq<
        Effect<DataKey, Event>,
    > {
        self.auth_asks(player) + match self.redeem_result(player, points) {
            Ok(units) => seq![
                Effect::Store(DataKey::PlayerPoints(player)),
                bumped(DataKey::PlayerPoints(player)),
                Effect::Store(DataKey::TotalRedeemed),
                Effect::Transfer {
                    token: self.config->0.token,
                    from: contract,
                    to: player,
                    amount: units,
                },
                Effect::Publish(
                    Event::PointsRedeemed(
                        PointsRedeemed { player, points_spent: points, tokens_received: units },
                    ),
                ),
            ],
            Err(_) => seq![],
        }
    }
}

impl PointsExchange {
    /// The contract before `init`.
    pub fn new() -> (exchange: Self)
        ensures
            exchange@ == PointsExchangeState::empty(),
    {
        PointsExchange { config: None, player_points: Table::new(), total_redeemed: 0 }
    }

    /// Asks for the caller's authorisation, and refuses anyone but the admin.
    pub fn require_admin(&self, env: &mut Env<DataKey, Event>, caller: Address) -> (r: Result<
        (),
        Error,
    >)
        ensures
            r == self@.admin_result(caller),
            final(env).after(*old(env), self@.auth_asks(caller)),
    {
        match &self.config {
            None => Err(Error::NotInitialized),
            Some(config) => {
                env.require_auth(caller);
                if caller.same(&config.admin) {
                    Ok(())
                } else {
                    Err(Error::NotAuthorized)
                }
            },
        }
    }

    pub fn init(
        &mut self,
        env: &mut Env<DataKey, Event>,
        admin: Address,
        token: Address,
        points_per_token: u64,
    ) -> (r: Result<(), Error>)
        ensures
            r is Err ==> final(self)@ == old(self)@,
            r == old(self)@.init_result(Config { admin, token, points_per_token }),
            final(self)@ == old(self)@.after_init(Config { admin, token, points_per_token }),
            final(env).after(
                *old(env),
                old(self)@.init_asks(Config { admin, token, points_per_token }),
            ),
    {
        if self.config.is_some() {
            return Err(Error::AlreadyInitialized);
        }
        env.require_auth(admin);
        if points_per_token == 0 {
            return Err(Error::InvalidAmount);
        }
        self.config = Some(Config { admin, token, points_per_token });
        env.store(DataKey::Admin);
        env.store(DataKey::Token);
        env.store(DataKey::PointsPerToken);
        Ok(())
    }

    /// The admin deposits tokens into the contract.
    pub fn fund(&self, env: &mut Env<DataKey, Event>, admin: Address, amount: i128) -> (r: Result<
        (),
        Error,
    >)
        ensures
            r == self@.fund_result(admin, amount),
            final(env).after(*old(env), self@.fund_asks(old(env).contract, admin, amount)),
    {
        if let Err(e) = self.require_admin(env, admin) {
            return Err(e);
        }
        if amount <= 0 {
            return Err(Error::InvalidAmount);
        }
        if let Some(config) = &self.config {
            let contract: Address = env.contract;
            env.transfer(config.token, admin, contract, amount);
        }
        Ok(())
    }

    /// The admin changes the rate.
    pub fn set_rate(
        &mut self,
        env: &mut Env<DataKey, Event>,
        admin: Address,
        points_per_token: u64,
    ) -> (r: Result<(), Error>)
        ensures
            r is Err ==> final(self)@ == old(self)@,
            r == old(self)@.set_rate_result(admin, points_per_token),
            final(self)@ == old(self)@.after_set_rate(admin, points_per_token),
            final(env).after(*old(env), old(self)@.set_rate_asks(admin, points_per_token)),
    {
        if let Err(e) = self.require_admin(env, admin) {
            return Err(e);
        }
        if points_per_token == 0 {
            return Err(Error::InvalidAmount);
        }
        if let Some(config) = self.config {
            self.config = Some(
                Config { admin: config.admin, token: config.token, points_per_token },
            );
            env.store(DataKey::PointsPerToken);
        }
        Ok(())
    }

    /// Credits points to a player, and returns what they have now. Admin only.
    pub fn record_points(
        &mut self,
        env: &mut Env<DataKey, Event>,
        caller: Address,
        player: Address,
        points: u64,
    ) -> (r: Result<u64, Error>)
        ensures
            r is Err ==> final(self)@ == old(self)@,
            r == old(self)@.record_result(caller, player, points),
            final(self)@ == old(self)@.after_record(caller, player, points),
            final(env).after(*old(env), old(self)@.record_asks(caller, player, points)),
    {
        if let Err(e) = self.require_admin(env, caller) {
            return Err(e);
        }
        let new_total: u64 = match self.get_player_points(player).checked_add(points) {
            Some(new_total) => new_total,
            None => {
                return Err(Error::Overflow);
            },
        };
        self.player_points.set(player, new_total);
        env.store(DataKey::PlayerPoints(player));
        env.bump(DataKey::PlayerPoints(player));
        env.publish(
            Event::PointsRecorded(
                PointsRecorded { player, points_added: points, total_points: new_total },
            ),
        );
        Ok(new_total)
    }

    /// A player redeems points for tokens at the current rate.
    pub fn redeem(&mut self, env: &mut Env<DataKey, Event>, player: Address, points: u64) -> (r:
        Result<i128, Error>)
        requires
            old(self)@.points(player) >= points > 0 ==> old(self)@.rate_positive(),
        ensures
            r is Err ==> final(self)@ == old(self)@,
            r == old(self)@.redeem_result(player, points),
            final(self)@ == old(self)@.after_redeem(player, points),
            final(env).after(*old(env), old(self)@.redeem_asks(old(env).contract, player, points)),
    {
        let config: Config = match self.config {
            Some(config) => config,
            None => {
                return Err(Error::NotInitialized);
            },
        };
        env.require_auth(player);
        if points == 0 {
            return Err(Error::InvalidAmount);
        }
        let balance: u64 = self.get_player_points(player);
        if balance < points {
            return Err(Error::InsufficientPoints);
        }
        let token_units: i128 = (points / config.points_per_token) as i128;
        if token_units == 0 {
            return Err(Error::InvalidAmount);
        }
        let total_redeemed: i128 = match self.total_redeemed.checked_add(token_units) {
            Some(total_redeemed) => total_redeemed,
            None => {
                return Err(Error::Overflow);
            },
        };
        self.player_points.set(player, balance - points);
        env.store(DataKey::PlayerPoints(player));
        env.bump(DataKey::PlayerPoints(player));
        self.total_redeemed = total_redeemed;
        env.store(DataKey::TotalRedeemed);
        let contract: Address = env.contract;
        env.transfer(config.token, contract, player, token_units);
        env.publish(
            Event::PointsRedeemed(
                PointsRedeemed { player, points_spent: points, tokens_received: token_units },
            ),
        );
        Ok(token_units)
    }

    pub fn get_player_points(&self, player: Address) -> (points: u64)
        ensures
            points == self@.points(player),
    {
        match self.player_points.get(&player) {
            Some(points) => *points,
            None => 0,
        }
    }

    /// The rate, 0 before `init`.
    pub fn get_rate(&self) -> (rate: u64)
        ensures
            rate == match self@.config {
                Some(config) => config.points_per_token,
                None => 0,
            },
    {
        match &self.config {
            Some(config) => config.points_per_token,
            None => 0,
        }
    }

    pub fn get_total_redeemed(&self) -> (total: i128)
        ensures
            total == self@.total_redeemed,
    {
        self.total_redeemed
    }
}

/// One call that may change the contract's ledger entries.
pub enum Call {
    Init { config: Config },
    SetRate { admin: Address, points_per_token: u64 },
    RecordPoints { caller: Address, player: Address, points: u64 },
    Redeem { player: Address, points: u64 },
}

impl PointsExchangeState {
    pub open spec fn step(self, call: Call) -> Self {
        match call {
            Call::Init { config } => self.after_init(config),
            Call::SetRate { admin, points_per_token } => self.after_set_rate(
                admin,
                points_per_token,
            ),
            Call::RecordPoints { caller, player, points } => self.after_record(
                caller,
                player,
                points,
            ),
            Call::Redeem { player, points } => self.after_redeem(player, points),
        }
    }

    /// What becomes of the ledger when calls are made one after the other.
    pub open spec fn run(self, calls: Seq<Call>) -> Self
        decreases calls.len(),
    {
        if calls.len() == 0 {
            self
        } else {
            self.run(calls.drop_last()).step(calls.last())
        }
    }

    /// The admin whom the `init` among these calls set, if one succeeded.
    pub open spec fn admin_set(self, calls: Seq<Call>) -> Option<Address>
        decreases calls.len(),
    {
        if calls.len() == 0 {
            None
        } else {
            let before = self.admin_set(calls.drop_last());
            match calls.last() {
                Call::Init { config } => if self.run(calls.drop_last()).init_result(config) is Ok {
                    Some(config.admin)
                } else {
                    before
                },
                _ => before,
            }
        }
    }

    /// The points that these calls credit to a player.
    pub open spec fn credited(self, calls: Seq<Call>, who: Address) -> nat
        decreases calls.len(),
    {
        if calls.len() == 0 {
            0
        } else {
            let before = self.credited(calls.drop_last(), who);
            match calls.last() {
                Call::RecordPoints { caller, player, points } => if player == who && self.run(
                    calls.drop_last(),
                ).record_result(caller, player, points) is Ok {
                    before + points as nat
                } else {
                    before
                },
                _ => before,
            }
        }
    }

    /// The points that a player spends in these calls.
    pub open spec fn spent(self, calls: Seq<Call>, who: Address) -> nat
        decreases calls.len(),
    {
        if calls.len() == 0 {
            0
        } else {
            let before = self.spent(calls.drop_last(), who);
            match calls.last() {
                Call::Redeem { player, points } => if player == who && self.run(
                    calls.drop_last(),
                ).redeem_result(player, points) is Ok {
                    before + points as nat
                } else {
                    before
                },
                _ => before,
            }
        }
    }

    /// The token units that these calls pay out.
    pub open spec fn paid(self, calls: Seq<Call>) -> int
        decreases calls.len(),
    {
        if calls.len() == 0 {
            0
        } else {
            let before = self.paid(calls.drop_last());
            match calls.last() {
                Call::Redeem { player, points } => match self.run(calls.drop_last()).redeem_result(
                    player,
                    points,
                ) {
                    Ok(units) => before + units,
                    Err(_) => before,
                },
                _ => before,
            }
        }
    }
}

/// A contract is set up once: its admin and token stay what they are, and
/// setting it up again is refused.
pub proof fn law_set_up_once(s: PointsExchangeState, calls: Seq<Call>, config: Config)
    requires
        s.config is Some,
    ensures
        s.run(calls).config is Some,
        s.run(calls).config->0.admin == s.config->0.admin,
        s.run(calls).config->0.token == s.config->0.token,
        s.run(calls).init_result(config) == Err::<(), Error>(Error::AlreadyInitialized),
    decreases calls.len(),
{
    if calls.len() > 0 {
        law_set_up_once(s, calls.drop_last(), config);
    }
}

/// Funding, changing the rate and crediting points succeed only for the admin,
/// and only with the admin's own authorisation.
pub proof fn law_admin_only(
    s: PointsExchangeState,
    contract: Address,
    caller: Address,
    amount: i128,
    rate: u64,
    player: Address,
    points: u64,
)
    ensures
        s.fund_result(caller, amount) is Ok ==> s.config is Some && caller == s.config->0.admin
            && s.fund_asks(contract, caller, amount)[0] == Effect::<DataKey, Event>::RequireAuth(
            s.config->0.admin,
        ),
        s.set_rate_result(caller, rate) is Ok ==> s.config is Some && caller == s.config->0.admin
            && s.set_rate_asks(caller, rate)[0] == Effect::<DataKey, Event>::RequireAuth(
            s.config->0.admin,
        ),
        s.record_result(caller, player, points) is Ok ==> s.config is Some && caller
            == s.config->0.admin && s.record_asks(caller, player, points)[0] == Effect::<
            DataKey,
            Event,
        >::RequireAuth(s.config->0.admin),
{
}

/// From an empty ledger, whatever calls were made, the check for the admin
/// knows no admin until an `init` succeeds. From then on it asks for the
/// caller's authorisation and lets nobody through but the admin whom that
/// `init` set.
pub proof fn law_admin_check(calls: Seq<Call>, caller: Address)
    ensures
        match PointsExchangeState::empty().run(calls).config {
            Some(config) => PointsExchangeState::empty().admin_set(calls) == Some(config.admin),
            None => PointsExchangeState::empty().admin_set(calls) is None,
        },
        PointsExchangeState::empty().run(calls).admin_result(caller)
            == match PointsExchangeState::empty().admin_set(calls) {
            None => Err::<(), Error>(Error::NotInitialized),
            Some(admin) => if caller == admin {
                Ok(())
            } else {
                Err(Error::NotAuthorized)
            },
        },
        PointsExchangeState::empty().run(calls).auth_asks(caller)
            == match PointsExchangeState::empty().admin_set(calls) {
            None => Seq::<Effect<DataKey, Event>>::empty(),
            Some(_) => seq![Effect::RequireAuth(caller)],
        },
    decreases calls.len(),
{
    if calls.len() > 0 {
        law_admin_check(calls.drop_last(), caller);
    }
}

/// Whoever does not pass the check for the admin is given its error by every
/// call of the admin, which then changes nothing and asks for no more than
/// the check does.
pub proof fn law_others_are_refused(
    s: PointsExchangeState,
    e: Error,
    caller: Address,
    contract: Address,
    amount: i128,
    rate: u64,
    player: Address,
    points: u64,
)
    requires
        s.admin_result(caller) == Err::<(), Error>(e),
    ensures
        s.fund_result(caller, amount) == Err::<(), Error>(e),
        s.fund_asks(contract, caller, amount) == s.auth_asks(caller),
        s.set_rate_result(caller, rate) == Err::<(), Error>(e),
        s.after_set_rate(caller, rate) == s,
        s.set_rate_asks(caller, rate) == s.auth_asks(caller),
        s.record_result(caller, player, points) == Err::<u64, Error>(e),
        s.after_record(caller, player, points) == s,
        s.record_asks(caller, player, points) == s.auth_asks(caller),
{
}

/// From an empty ledger, whatever calls are made, tokens cost points.
pub proof fn law_rate_positive(calls: Seq<Call>)
    ensures
        PointsExchangeState::empty().run(calls).rate_positive(),
    decreases calls.len(),
{
    if calls.len() > 0 {
        law_rate_positive(calls.drop_last());
    }
}

/// Points are neither lost nor made: what was credited to a player is what
/// they still have and what they spent.
pub proof fn law_points_are_conserved(calls: Seq<Call>, player: Address)
    ensures
        PointsExchangeState::empty().credited(calls, player)
            == PointsExchangeState::empty().run(calls).points(player)
            + PointsExchangeState::empty().spent(calls, player),
    decreases calls.len(),
{
    if calls.len() > 0 {
        law_points_are_conserved(calls.drop_last(), player);
    }
}

/// The total is what was paid out to players.
pub proof fn law_total_redeemed_is_paid(calls: Seq<Call>)
    ensures
        PointsExchangeState::empty().run(calls).total_redeemed
            == PointsExchangeState::empty().paid(calls),
        PointsExchangeState::empty().paid(calls) >= 0,
    decreases calls.len(),
{
    if calls.len() > 0 {
        law_total_redeemed_is_paid(calls.drop_last());
        law_rate_positive(calls.drop_last());
        let s = PointsExchangeState::empty().run(calls.drop_last());
        if let Call::Redeem { player, points } = calls.last() {
            if s.redeem_result(player, points) is Ok {
                law_redeem_at_rate(s, player, points);
            }
        }
    }
}

/// Redeeming pays one token unit for every so many points as the rate says,
/// at least one, and takes the points.
pub proof fn law_redeem_at_rate(s: PointsExchangeState, player: Address, points: u64)
    requires
        s.rate_positive(),
        s.redeem_result(player, points) is Ok,
    ensures
        s.redeem_result(player, points)->Ok_0 >= 1,
        s.redeem_result(player, points)->Ok_0 == s.token_units(points),
        s.token_units(points) * s.config->0.points_per_token <= points,
        points < (s.token_units(points) + 1) * s.config->0.points_per_token,
        s.after_redeem(player, points).points(player) == s.points(player) - points,
{
    let rate = s.config->0.points_per_token as int;
    let p = points as int;
    assert(0 <= p / rate <= p && (p / rate) * rate <= p < (p / rate + 1) * rate)
        by (nonlinear_arith)
        requires
            p >= 0,
            rate > 0,
    ;
}

/// Points are redeemed only with the player's own authorisation.
pub proof fn law_player_authorises(
    s: PointsExchangeState,
    contract: Address,
    player: Address,
    points: u64,
)
    requires
        s.redeem_result(player, points) is Ok,
    ensures
        s.redeem_asks(contract, player, points)[0] == Effect::<DataKey, Event>::RequireAuth(player),
{
}

/// Before anything is called the ledger holds nothing.
pub proof fn law_starts_empty()
    ensures
        PointsExchangeState::empty().config is None,
        PointsExchangeState::empty().player_points == Map::<Address, u64>::empty(),
        PointsExchangeState::empty().total_redeemed == 0,
{
}

/// Without an admin nobody is asked and everybody is refused. Otherwise the
/// caller is asked for, the admin is let through, and all others are refused.
pub proof fn law_admin_is_let_through(s: PointsExchangeState, caller: Address)
    ensures
        s.config is None ==> s.admin_result(caller) == Err::<(), Error>(Error::NotInitialized)
            && s.auth_asks(caller) == Seq::<Effect<DataKey, Event>>::empty(),
        s.config is Some ==> s.auth_asks(caller) =~= seq![Effect::RequireAuth(caller)],
        s.config is Some && caller == s.config->0.admin ==> s.admin_result(caller) == Ok::<
            (),
            Error,
        >(()),
        s.config is Some && caller != s.config->0.admin ==> s.admin_result(caller) == Err::<
            (),
            Error,
        >(Error::NotAuthorized),
{
}

/// A contract that is not set up yet is set up as asked if the policy is valid: what `init`
/// was given is written, nothing else changes, and the admin is asked for.
/// Otherwise nothing is written.
pub proof fn law_init_sets_up(s: PointsExchangeState, config: Config)
    ensures
        s.config is None && config.points_per_token > 0 ==> {
            &&& s.init_result(config) == Ok::<(), Error>(())
            &&& s.after_init(config) == (PointsExchangeState { config: Some(config), ..s })
            &&& s.init_asks(config) =~= seq![
                Effect::RequireAuth(config.admin),
                Effect::Store(DataKey::Admin),
                Effect::Store(DataKey::Token),
                Effect::Store(DataKey::PointsPerToken),
            ]
        },
        s.config is Some ==> {
            &&& s.init_result(config) == Err::<(), Error>(Error::AlreadyInitialized)
            &&& s.after_init(config) == s
            &&& s.init_asks(config) =~= Seq::<Effect<DataKey, Event>>::empty()
        },
        s.config is None && !(config.points_per_token > 0) ==> {
            &&& s.init_result(config) == Err::<(), Error>(Error::InvalidAmount)
            &&& s.after_init(config) == s
            &&& s.init_asks(config) =~= seq![Effect::RequireAuth(config.admin)]
        },
{
}

/// The admin may pay in any amount above zero, which moves from the admin to
/// the contract.
pub proof fn law_funds_are_taken(
    s: PointsExchangeState,
    contract: Address,
    caller: Address,
    amount: i128,
)
    requires
        s.config is Some,
        caller == s.config->0.admin,
    ensures
        amount > 0 ==> {
            &&& s.fund_result(caller, amount) == Ok::<(), Error>(())
            &&& s.fund_asks(contract, caller, amount) =~= seq![
                Effect::RequireAuth(caller),
                Effect::Transfer {
                    token: s.config->0.token,
                    from: caller,
                    to: contract,
                    amount,
                },
            ]
            &&& moved(s.fund_asks(contract, caller, amount), s.config->0.token, caller, contract)
                == amount
        },
        amount <= 0 ==> {
            &&& s.fund_result(caller, amount) == Err::<(), Error>(Error::InvalidAmount)
            &&& s.fund_asks(contract, caller, amount) =~= seq![Effect::RequireAuth(caller)]
        },
{
    reveal_with_fuel(moved, 3);
}

/// The admin may set any rate above zero, and that changes nothing else.
pub proof fn law_rate_is_set(s: PointsExchangeState, caller: Address, rate: u64)
    requires
        s.config is Some,
        caller == s.config->0.admin,
    ensures
        rate > 0 ==> {
            &&& s.set_rate_result(caller, rate) == Ok::<(), Error>(())
            &&& s.after_set_rate(caller, rate) == (PointsExchangeState {
                config: Some(
                    Config {
                        admin: s.config->0.admin,
                        token: s.config->0.token,
                        points_per_token: rate,
                    },
                ),
                ..s
            })
            &&& s.set_rate_asks(caller, rate) =~= seq![
                Effect::RequireAuth(caller),
                Effect::Store(DataKey::PointsPerToken),
            ]
        },
        rate == 0 ==> {
            &&& s.set_rate_result(caller, rate) == Err::<(), Error>(Error::InvalidAmount)
            &&& s.after_set_rate(caller, rate) == s
            &&& s.set_rate_asks(caller, rate) =~= seq![Effect::RequireAuth(caller)]
        },
{
}

/// The points of a player are what was last written for them.
pub proof fn law_points_are_what_was_written(s: PointsExchangeState, player: Address)
    ensures
        s.player_points.contains_key(player) ==> s.points(player) == s.player_points[player],
        !s.player_points.contains_key(player) ==> s.points(player) == 0,
{
}

/// Points that the admin credits are added to those of that player, in full,
/// and refused only if there would be too many.
pub proof fn law_points_are_added(
    s: PointsExchangeState,
    caller: Address,
    player: Address,
    points: u64,
)
    requires
        s.config is Some,
        caller == s.config->0.admin,
    ensures
        s.points(player) + points <= u64::MAX ==> {
            let total = (s.points(player) + points) as u64;
            &&& s.record_result(caller, player, points) == Ok::<u64, Error>(total)
            &&& s.after_record(caller, player, points) == (PointsExchangeState {
                player_points: s.player_points.insert(player, total),
                ..s
            })
            &&& s.record_asks(caller, player, points) =~= seq![
                Effect::RequireAuth(caller),
                Effect::Store(DataKey::PlayerPoints(player)),
                Effect::ExtendTtl {
                key: DataKey::PlayerPoints(player),
                threshold: 518_400,
                extend_to: 518_400,
            },
                Effect::Publish(
                    Event::PointsRecorded(
                        PointsRecorded { player, points_added: points, total_points: total },
                    ),
                ),
            ]
        },
        s.points(player) + points > u64::MAX ==> {
            &&& s.record_result(caller, player, points) == Err::<u64, Error>(Error::Overflow)
            &&& s.after_record(caller, player, points) == s
            &&& s.record_asks(caller, player, points) =~= seq![Effect::RequireAuth(caller)]
        },
{
}

/// Whoever has the points may turn in as many of them as buy a token unit:
/// the points are taken, and `units`, the whole units that they buy, move from
/// the contract to the player. It fails only if the total grows too large.
pub proof fn law_points_can_be_redeemed(
    s: PointsExchangeState,
    contract: Address,
    player: Address,
    points: u64,
    units: int,
)
    requires
        s.config is Some,
        s.player_points.contains_key(player),
        0 < points <= s.player_points[player],
        s.config->0.points_per_token > 0,
        units >= 1,
        units * s.config->0.points_per_token <= points < (units + 1)
            * s.config->0.points_per_token,
    ensures
        s.total_redeemed + units <= i128::MAX ==> {
            &&& s.redeem_result(player, points) == Ok::<i128, Error>(units as i128)
            &&& s.after_redeem(player, points) == (PointsExchangeState {
                player_points: s.player_points.insert(
                    player,
                    (s.player_points[player] - points) as u64,
                ),
                total_redeemed: (s.total_redeemed + units) as i128,
                ..s
            })
            &&& s.redeem_asks(contract, player, points) =~= seq![
                Effect::RequireAuth(player),
                Effect::Store(DataKey::PlayerPoints(player)),
                Effect::ExtendTtl {
                key: DataKey::PlayerPoints(player),
                threshold: 518_400,
                extend_to: 518_400,
            },
                Effect::Store(DataKey::TotalRedeemed),
                Effect::Transfer {
                    token: s.config->0.token,
                    from: contract,
                    to: player,
                    amount: units as i128,
                },
                Effect::Publish(
                    Event::PointsRedeemed(
                        PointsRedeemed {
                            player,
                            points_spent: points,
                            tokens_received: units as i128,
                        },
                    ),
                ),
            ]
            &&& moved(s.redeem_asks(contract, player, points), s.config->0.token, contract, player)
                == units
        },
        s.total_redeemed + units > i128::MAX ==> s.redeem_result(player, points) == Err::<
            i128,
            Error,
        >(Error::Overflow),
{
    let rate = s.config->0.points_per_token as int;
    let p = points as int;
    assert(p / rate == units) by (nonlinear_arith)
        requires
            rate > 0,
            units * rate <= p < (units + 1) * rate,
    ;
    assert(units <= p) by (nonlinear_arith)
        requires
            rate > 0,
            units >= 1,
            units * rate <= p,
    ;
    reveal_with_fuel(moved, 7);
}

/// Redeeming is refused only where there is no contract, no points are turned
/// in, the player lacks them, they buy no whole unit, or the total grows too
/// large. Then nothing is taken and nothing moves.
pub proof fn law_redeem_is_refused_for_a_reason(
    s: PointsExchangeState,
    contract: Address,
    player: Address,
    points: u64,
)
    ensures
        s.config is None ==> s.redeem_result(player, points) == Err::<i128, Error>(
            Error::NotInitialized,
        ) && s.redeem_asks(contract, player, points) =~= Seq::<Effect<DataKey, Event>>::empty(),
        s.config is Some && points == 0 ==> s.redeem_result(player, points) == Err::<i128, Error>(
            Error::InvalidAmount,
        ),
        s.config is Some && points > 0 && (!s.player_points.contains_key(player)
            || s.player_points[player] < points) ==> s.redeem_result(player, points) == Err::<
            i128,
            Error,
        >(Error::InsufficientPoints),
        s.config is Some && s.player_points.contains_key(player) && 0 < points
            <= s.player_points[player] && points < s.config->0.points_per_token
            ==> s.redeem_result(player, points) == Err::<i128, Error>(Error::InvalidAmount),
        s.redeem_result(player, points) is Err ==> s.after_redeem(player, points) == s,
        s.redeem_result(player, points) is Err && s.config is Some ==> s.redeem_asks(
            contract,
            player,
            points,
        ) =~= seq![Effect::RequireAuth(player)],
{
    let rate = s.config->0.points_per_token as int;
    let p = points as int;
    assert(0 < p < rate ==> p / rate == 0) by (nonlinear_arith);
}

} // verus!
