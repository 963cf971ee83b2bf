//! Cooldowns that several games share. Each game has a cooldown window; after
//! a player acts in a game they wait that long before they act in it again.
//!
//! The admin calls `init` and sets the window of each game with
//! `register_game`. Game contracts call `check_and_consume` before they accept
//! an action. A new window does not touch cooldowns that are already running.

use vstd::prelude::*;

use crate::address::{Address, Key, Symbol};
use crate::env::{bumped, Effect, Env};
use crate::table::Table;

verus! {

#[derive(Copy, Clone, Debug, Eq, PartialEq, PartialOrd, Ord)]
pub enum Error {
    AlreadyInitialized,
    NotInitialized,
    NotAuthorized,
    GameNotRegistered,
    CooldownActive,
    InvalidDuration,
}

impl Error {
    /// The number by which callers of the contract know the error.
    pub fn code(self) -> (code: u32)
        ensures
            code == match self {
                Error::AlreadyInitialized => 1u32,
                Error::NotInitialized => 2,
                Error::NotAuthorized => 3,
                Error::GameNotRegistered => 4,
                Error::CooldownActive => 5,
                Error::InvalidDuration => 6,
            },
    {
        match self {
            Error::AlreadyInitialized => 1,
            Error::NotInitialized => 2,
            Error::NotAuthorized => 3,
            Error::GameNotRegistered => 4,
            Error::CooldownActive => 5,
            Error::InvalidDuration => 6,
        }
    }
}

/// The names of the contract's ledger entries.
#[derive(Clone, Copy, Debug, Eq, PartialEq)]
pub enum DataKey {
    Admin,
    GameCooldown(Symbol),
    PlayerCooldown(Symbol, Address),
}

/// When a player last acted in a game and how often they have, and the window
/// that the game had then.
#[derive(Clone, Copy, Debug, Eq, PartialEq)]
pub struct CooldownState {
    pub last_action_ts: u64,
    pub action_count: u32,
    pub cooldown_secs: u64,
}

impl View for CooldownState {
    type V = CooldownState;

    open spec fn view(&self) -> CooldownState {
        *self
    }
}

#[derive(Clone, Copy, Debug, Eq, PartialEq)]
pub struct CooldownConsumed {
    pub game_id: Symbol,
    pub player: Address,
    pub next_available_ts: u64,
}

#[derive(Clone, Copy, Debug, Eq, PartialEq)]
pub struct GameRegistered {
    pub game_id: Symbol,
    pub cooldown_secs: u64,
}

#[derive(Clone, Copy, Debug, Eq, PartialEq)]
pub enum Event {
    CooldownConsumed(CooldownConsumed),
    GameRegistered(GameRegistered),
}

/// What `init` writes.
#[derive(Clone, Copy, Debug, Eq, PartialEq)]
pub struct Config {
    pub admin: Address,
}

/// The contract's ledger entries.
pub struct CooldownManager {
    pub config: Option<Config>,
    pub games: Table<Symbol, u64>,
    pub player_cooldowns: Table<(Symbol, Address), CooldownState>,
}

/// The contract's ledger entries as maps.
#[verifier::ext_equal]
pub struct CooldownManagerState {
    pub config: Option<Config>,
    pub games: Map<Symbol, u64>,
    pub player_cooldowns: Map<(Symbol, Address), CooldownState>,
}

impl View for CooldownManager {
    type V = CooldownManagerState;

    open spec fn view(&self) -> CooldownManagerState {
        CooldownManagerState {
            config: self.config,
            games: self.games@,
            player_cooldowns: self.player_cooldowns@,
        }
    }
}

impl CooldownState {
    /// Less time than the window has passed since the player acted.
    pub open spec fn running(self, now: u64) -> bool {
        let elapsed = if now < self.last_action_ts {
            0
        } else {
            now - self.last_action_ts
        };
        elapsed < self.cooldown_secs
    }

    /// When the window is over.
    pub open spec fn over_at(self) -> u64 {
        self.last_action_ts.saturating_add(self.cooldown_secs)
    }
}

impl CooldownManagerState {
    /// The ledger before `init`.
    pub open spec fn empty() -> Self {
        CooldownManagerState {
            config: None,
            games: Map::empty(),
            player_cooldowns: Map::empty(),
        }
    }

    /// The request for an authorisation, once there is a contract to call.
    pub open spec fn auth_asks(self, address: Address) -> Seq<Effect<DataKey, Event>> {
        if self.config is Some {
            seq![Effect::RequireAuth(address)]
        } else {
            seq![]
        }
    }

    /// Only the admin may go on.
    pub open spec fn admin_result(self, caller: Address) -> Result<(), Error> {
        match self.config {
            None => Err(Error::NotInitialized),
            Some(config) => if caller == config.admin {
                Ok(())
            } else {
                Err(Error::NotAuthorized)
            },
        }
    }

    pub open spec fn init_result(self) -> Result<(), Error> {
        if self.config is Some {
            Err(Error::AlreadyInitialized)
        } else {
            Ok(())
        }
    }

    pub open spec fn after_init(self, admin: Address) -> Self {
        if self.init_result() is Ok {
            CooldownManagerState { config: Some(Config { admin }), ..self }
        } else {
            self
        }
    }

    pub open spec fn init_asks(self, admin: Address) -> Seq<Effect<DataKey, Event>> {
        if self.init_result() is Ok {
            seq![Effect::RequireAuth(admin), Effect::Store(DataKey::Admin)]
        } else {
            seq![]
        }
    }

    pub open spec fn register_result(self, admin: Address, cooldown_secs: u64) -> Result<
        (),
        Error,
    > {
        match self.admin_result(admin) {
            Err(e) => Err(e),
            Ok(_) => if cooldown_secs == 0 {
                Err(Error::InvalidDuration)
            } else {
                Ok(())
            },
        }
    }

    pub open spec fn after_register(
        self,
        admin: Address,
        game_id: Symbol,
        cooldown_secs: u64,
    ) -> Self {
        if self.register_result(admin, cooldown_secs) is Ok {
            CooldownManagerState { games: self.games.insert(game_id, cooldown_secs), ..self }
        } else {
            self
        }
    }

    pub open spec fn register_asks(
        self,
        admin: Address,
        game_id: Symbol,
        cooldown_secs: u64,
    ) -> Seq<Effect<DataKey, Event>> {
        self.auth_asks(admin) + if self.register_result(admin, cooldown_secs) is Ok {
            seq![
                Effect::Store(DataKey::GameCooldown(game_id)),
                Effect::Publish(Event::GameRegistered(GameRegistered { game_id, cooldown_secs })),
            ]
        } else {
            seq![]
        }
    }

    /// A cooldown of this player in this game is running.
    pub open spec fn on_cooldown(self, now: u64, game_id: Symbol, player: Address) -> bool {
        self.player_cooldowns.contains_key((game_id, player)) && self.player_cooldowns[(
            game_id,
            player,
        )].running(now)
    }

    /// How often a player has acted in a game.
    pub open spec fn action_count(self, game_id: Symbol, player: Address) -> u32 {
        if self.player_cooldowns.contains_key((game_id, player)) {
            self.player_cooldowns[(game_id, player)].action_count
        } else {
            0
        }
    }

    /// What is noted of a player who acts now.
    pub open spec fn consumed(self, now: u64, game_id: Symbol, player: Address) -> CooldownState {
        CooldownState {
            last_action_ts: now,
            action_count: self.action_count(game_id, player).saturating_add(1),
            cooldown_secs: self.games[game_id],
        }
    }

    /// A player who is not on cooldown may act, and learns when they may act again.
    pub open spec fn consume_result(
        self,
        now: u64,
        caller: Address,
        game_id: Symbol,
        player: Address,
    ) -> Result<u64, Error> {
        match self.admin_result(caller) {
            Err(e) => Err(e),
            Ok(_) => if !self.games.contains_key(game_id) {
                Err(Error::GameNotRegistered)
            } else if self.on_cooldown(now, game_id, player) {
                Err(Error::CooldownActive)
            } else {
                Ok(self.consumed(now, game_id, player).over_at())
            },
        }
    }

    pub open spec fn after_consume(
        self,
        now: u64,
        caller: Address,
        game_id: Symbol,
        player: Address,
    ) -> Self {
        if self.consume_result(now, caller, game_id, player) is Ok {
            CooldownManagerState {
                player_cooldowns: self.player_cooldowns.insert(
                    (game_id, player),
                    self.consumed(now, game_id, player),
                ),
                ..self
            }
        } else {
            self
        }
    }

    pub open spec fn consume_asks(
        self,
        now: u64,
        caller: Address,
        game_id: Symbol,
        player: Address,
    ) -> Seq<Effect<DataKey, Event>> {
        self.auth_asks(caller) + match self.consume_result(now, caller, game_id, player) {
            Ok(next_available_ts) => seq![
                Effect::Store(DataKey::PlayerCooldown(game_id, player)),
                bumped(DataKey::PlayerCooldown(game_id, player)),
                Effect::Publish(
                    Event::CooldownConsumed(
                        CooldownConsumed { game_id, player, next_available_ts },
                    ),
                ),
            ],
            Err(_) => seq![],
        }
    }

    /// When a player may act in a game again, 0 if that is now.
    pub open spec fn next_available(self, now: u64, game_id: Symbol, player: Address) -> u64 {
        if self.player_cooldowns.contains_key((game_id, player)) && self.player_cooldowns[(
            game_id,
            player,
        )].over_at() > now {
            self.player_cooldowns[(game_id, player)].over_at()
        } else {
            0
        }
    }
}

impl CooldownManager {
    /// The contract before `init`.
    pub fn new() -> (manager: Self)
        ensures
            manager@ == CooldownManagerState::empty(),
    {
        CooldownManager { config: None, games: Table::new(), player_cooldowns: Table::new() }
    }

    /// Asks for the caller's authorisation, and refuses anyone but the admin.
    pub fn require_admin(&self, env: &mut Env<DataKey, Event>, caller: Address) -> (r: Result<
        (),
        Error,
    >)
        ensures
            r == self@.admin_result(caller),
            final(env).after(*old(env), self@.auth_asks(caller)),
    {
        match &self.config {
            None => Err(Error::NotInitialized),
            Some(config) => {
                env.require_auth(caller);
                if caller.same(&config.admin) {
                    Ok(())
                } else {
                    Err(Error::NotAuthorized)
                }
            },
        }
    }

    pub fn init(&mut self, env: &mut Env<DataKey, Event>, admin: Address) -> (r: Result<(), Error>)
        ensures
            r is Err ==> final(self)@ == old(self)@,
            r == old(self)@.init_result(),
            final(self)@ == old(self)@.after_init(admin),
            final(env).after(*old(env), old(self)@.init_asks(admin)),
    {
        if self.config.is_some() {
            return Err(Error::AlreadyInitialized);
        }
        env.require_auth(admin);
        self.config = Some(Config { admin });
        env.store(DataKey::Admin);
        Ok(())
    }

    /// The admin sets the cooldown window of a game, or changes it.
    pub fn register_game(
        &mut self,
        env: &mut Env<DataKey, Event>,
        admin: Address,
        game_id: Symbol,
        cooldown_secs: u64,
    ) -> (r: Result<(), Error>)
        ensures
            r is Err ==> final(self)@ == old(self)@,
            r == old(self)@.register_result(admin, cooldown_secs),
            final(self)@ == old(self)@.after_register(admin, game_id, cooldown_secs),
            final(env).after(*old(env), old(self)@.register_asks(admin, game_id, cooldown_secs)),
    {
        if let Err(e) = self.require_admin(env, admin) {
            return Err(e);
        }
        if cooldown_secs == 0 {
            return Err(Error::InvalidDuration);
        }
        self.games.set(game_id, cooldown_secs);
        env.store(DataKey::GameCooldown(game_id));
        env.publish(Event::GameRegistered(GameRegistered { game_id, cooldown_secs }));
        Ok(())
    }

    /// Checks that a player may act in a game, and notes that they do. The
    /// caller must be the admin, who acts for the game contracts.
    pub fn check_and_consume(
        &mut self,
        env: &mut Env<DataKey, Event>,
        caller: Address,
        game_id: Symbol,
        player: Address,
    ) -> (r: Result<u64, Error>)
        ensures
            r is Err ==> final(self)@ == old(self)@,
            r == old(self)@.consume_result(old(env).timestamp, caller, game_id, player),
            final(self)@ == old(self)@.after_consume(
                old(env).timestamp,
                caller,
                game_id,
                player,
            ),
            final(env).after(
                *old(env),
                old(self)@.consume_asks(old(env).timestamp, caller, game_id, player),
            ),
    {
        if let Err(e) = self.require_admin(env, caller) {
            return Err(e);
        }
        let cooldown_secs: u64 = match self.games.get(&game_id) {
            Some(cooldown_secs) => *cooldown_secs,
            None => {
                return Err(Error::GameNotRegistered);
            },
        };
        let now: u64 = env.timestamp;
        let mut action_count: u32 = 0;
        if let Some(state) = self.player_cooldowns.get(&(game_id, player)) {
            let elapsed: u64 = now.saturating_sub(state.last_action_ts);
            if elapsed < state.cooldown_secs {
                return Err(Error::CooldownActive);
            }
            action_count = state.action_count;
        }
        self.player_cooldowns.set(
            (game_id, player),
            CooldownState {
                last_action_ts: now,
                action_count: action_count.saturating_add(1),
                cooldown_secs,
            },
        );
        env.store(DataKey::PlayerCooldown(game_id, player));
        env.bump(DataKey::PlayerCooldown(game_id, player));
        let next_available_ts: u64 = now.saturating_add(cooldown_secs);
        env.publish(
            Event::CooldownConsumed(CooldownConsumed { game_id, player, next_available_ts }),
        );
        Ok(next_available_ts)
    }

    /// When a player may act in a game again, or 0 if no cooldown is running.
    pub fn get_next_available(
        &self,
        env: &Env<DataKey, Event>,
        game_id: Symbol,
        player: Address,
    ) -> (next: u64)
        ensures
            next == self@.next_available(env.timestamp, game_id, player),
    {
        match self.player_cooldowns.get(&(game_id, player)) {
            Some(state) => {
                let next: u64 = state.last_action_ts.saturating_add(state.cooldown_secs);
                if next > env.timestamp {
                    next
                } else {
                    0
                }
            },
            None => 0,
        }
    }

    pub fn get_action_count(&self, game_id: Symbol, player: Address) -> (count: u32)
        ensures
            count == self@.action_count(game_id, player),
    {
        match self.player_cooldowns.get(&(game_id, player)) {
            Some(state) => state.action_count,
            None => 0,
        }
    }
}

/// One call that may change the contract's ledger entries.
pub enum Call {
    Init { admin: Address },
    RegisterGame { admin: Address, game_id: Symbol, cooldown_secs: u64 },
    CheckAndConsume { now: u64, caller: Address, game_id: Symbol, player: Address },
}

impl CooldownManagerState {
    pub open spec fn step(self, call: Call) -> Self {
        match call {
            Call::Init { admin } => self.after_init(admin),
            Call::RegisterGame { admin, game_id, cooldown_secs } => self.after_register(
                admin,
                game_id,
                cooldown_secs,
            ),
            Call::CheckAndConsume { now, caller, game_id, player } => self.after_consume(
                now,
                caller,
                game_id,
                player,
            ),
        }
    }

    /// What becomes of the ledger when calls are made one after the other.
    pub open spec fn run(self, calls: Seq<Call>) -> Self
        decreases calls.len(),
    {
        if calls.len() == 0 {
            self
        } else {
            self.run(calls.drop_last()).step(calls.last())
        }
    }

    /// The admin whom the `init` among these calls set, if one succeeded.
    pub open spec fn admin_set(self, calls: Seq<Call>) -> Option<Address>
        decreases calls.len(),
    {
        if calls.len() == 0 {
            None
        } else {
            let before = self.admin_set(calls.drop_last());
            match calls.last() {
                Call::Init { admin } => if self.run(calls.drop_last()).init_result() is Ok {
                    Some(admin)
                } else {
                    before
                },
                _ => before,
            }
        }
    }

    /// Every window takes some time.
    pub open spec fn windows_positive(self) -> bool {
        &&& forall|game_id: Symbol| #[trigger]
            self.games.contains_key(game_id) ==> self.games[game_id] > 0
        &&& forall|game_id: Symbol, player: Address| #[trigger]
            self.player_cooldowns.contains_key((game_id, player)) ==> self.player_cooldowns[(
                game_id,
                player,
            )].cooldown_secs > 0
    }

    /// How many of these calls let a player act in a game.
    pub open spec fn actions(self, calls: Seq<Call>, game: Symbol, who: Address) -> nat
        decreases calls.len(),
    {
        if calls.len() == 0 {
            0
        } else {
            let before = self.actions(calls.drop_last(), game, who);
            match calls.last() {
                Call::CheckAndConsume { now, caller, game_id, player } => if game_id == game
                    && player == who && self.run(calls.drop_last()).consume_result(
                    now,
                    caller,
                    game_id,
                    player,
                ) is Ok {
                    before + 1
                } else {
                    before
                },
                _ => before,
            }
        }
    }
}

/// A contract is set up once: its admin stays, and setting it up again is refused.
pub proof fn law_set_up_once(s: CooldownManagerState, calls: Seq<Call>)
    requires
        s.config is Some,
    ensures
        s.run(calls).config == s.config,
        s.run(calls).init_result() == Err::<(), Error>(Error::AlreadyInitialized),
    decreases calls.len(),
{
    if calls.len() > 0 {
        law_set_up_once(s, calls.drop_last());
    }
}

/// Setting windows and consuming cooldowns succeed only for the admin, and
/// only with the admin's own authorisation.
pub proof fn law_admin_only(
    s: CooldownManagerState,
    now: u64,
    caller: Address,
    game_id: Symbol,
    cooldown_secs: u64,
    player: Address,
)
    ensures
        s.register_result(caller, cooldown_secs) is Ok ==> s.config is Some && caller
            == s.config->0.admin && s.register_asks(caller, game_id, cooldown_secs)[0]
            == Effect::<DataKey, Event>::RequireAuth(s.config->0.admin),
        s.consume_result(now, caller, game_id, player) is Ok ==> s.config is Some && caller
            == s.config->0.admin && s.consume_asks(now, caller, game_id, player)[0] == Effect::<
            DataKey,
            Event,
        >::RequireAuth(s.config->0.admin),
{
}

/// From an empty ledger, whatever calls were made, the check for the admin
/// knows no admin until an `init` succeeds. From then on it asks for the
/// caller's authorisation and lets nobody through but the admin whom that
/// `init` set.
pub proof fn law_admin_check(calls: Seq<Call>, caller: Address)
    ensures
        match CooldownManagerState::empty().run(calls).config {
            Some(config) => CooldownManagerState::empty().admin_set(calls) == Some(config.admin),
            None => CooldownManagerState::empty().admin_set(calls) is None,
        },
        CooldownManagerState::empty().run(calls).admin_result(caller)
            == match CooldownManagerState::empty().admin_set(calls) {
            None => Err::<(), Error>(Error::NotInitialized),
            Some(admin) => if caller == admin {
                Ok(())
            } else {
                Err(Error::NotAuthorized)
            },
        },
        CooldownManagerState::empty().run(calls).auth_asks(caller)
            == match CooldownManagerState::empty().admin_set(calls) {
            None => Seq::<Effect<DataKey, Event>>::empty(),
            Some(_) => seq![Effect::RequireAuth(caller)],
        },
    decreases calls.len(),
{
    if calls.len() > 0 {
        law_admin_check(calls.drop_last(), caller);
    }
}

/// Whoever does not pass the check for the admin is given its error by every
/// call of the admin, which then changes nothing and asks for no more than
/// the check does.
pub proof fn law_others_are_refused(
    s: CooldownManagerState,
    e: Error,
    caller: Address,
    now: u64,
    game_id: Symbol,
    cooldown_secs: u64,
    player: Address,
)
    requires
        s.admin_result(caller) == Err::<(), Error>(e),
    ensures
        s.register_result(caller, cooldown_secs) == Err::<(), Error>(e),
        s.after_register(caller, game_id, cooldown_secs) == s,
        s.register_asks(caller, game_id, cooldown_secs) == s.auth_asks(caller),
        s.consume_result(now, caller, game_id, player) == Err::<u64, Error>(e),
        s.after_consume(now, caller, game_id, player) == s,
        s.consume_asks(now, caller, game_id, player) == s.auth_asks(caller),
{
}

/// From an empty ledger, whatever calls are made, every window takes some time.
pub proof fn law_windows_positive(calls: Seq<Call>)
    ensures
        CooldownManagerState::empty().run(calls).windows_positive(),
    decreases calls.len(),
{
    if calls.len() > 0 {
        law_windows_positive(calls.drop_last());
    }
}

/// A cooldown that is running is not touched by anything else: after a player
/// acts in a game, whatever calls follow without letting them act again, a
/// change of the game's window and refused actions among them, the player is
/// refused until the window that the game had at the time of the action is
/// over, and from then on is let through.
pub proof fn law_cooldown_holds(
    s: CooldownManagerState,
    acted: u64,
    caller: Address,
    game_id: Symbol,
    player: Address,
    calls: Seq<Call>,
    now: u64,
)
    requires
        s.windows_positive(),
        s.consume_result(acted, caller, game_id, player) is Ok,
        s.after_consume(acted, caller, game_id, player).actions(calls, game_id, player) == 0,
    ensures
        s.after_consume(acted, caller, game_id, player).run(calls).player_cooldowns.contains_key(
            (game_id, player),
        ),
        s.after_consume(acted, caller, game_id, player).run(calls).player_cooldowns[(
            game_id,
            player,
        )] == s.consumed(acted, game_id, player),
        s.after_consume(acted, caller, game_id, player).run(calls).consume_result(
            now,
            caller,
            game_id,
            player,
        ) == Err::<u64, Error>(Error::CooldownActive) <==> now < acted + s.games[game_id],
        s.after_consume(acted, caller, game_id, player).run(calls).consume_result(
            now,
            caller,
            game_id,
            player,
        ) is Ok <==> now >= acted + s.games[game_id],
    decreases calls.len(),
{
    let t = s.after_consume(acted, caller, game_id, player);
    law_set_up_once(t, calls);
    lemma_game_stays(t, calls, game_id);
    if calls.len() > 0 {
        law_cooldown_holds(s, acted, caller, game_id, player, calls.drop_last(), now);
    }
}

proof fn lemma_game_stays(s: CooldownManagerState, calls: Seq<Call>, game_id: Symbol)
    requires
        s.games.contains_key(game_id),
    ensures
        s.run(calls).games.contains_key(game_id),
    decreases calls.len(),
{
    if calls.len() > 0 {
        lemma_game_stays(s, calls.drop_last(), game_id);
    }
}

/// The time at which a player may act again is right: while it is given, the
/// player is on cooldown, and from that time on they are not. When 0 is given
/// the player is not on cooldown. This leaves out a cooldown that ends after
/// the last second there is.
pub proof fn law_next_available_is_right(
    s: CooldownManagerState,
    now: u64,
    later: u64,
    game_id: Symbol,
    player: Address,
)
    requires
        s.windows_positive(),
        s.player_cooldowns.contains_key((game_id, player)) ==> s.player_cooldowns[(
            game_id,
            player,
        )].last_action_ts + s.player_cooldowns[(game_id, player)].cooldown_secs <= u64::MAX,
    ensures
        s.next_available(now, game_id, player) != 0 <==> s.on_cooldown(now, game_id, player),
        s.next_available(now, game_id, player) != 0 ==> (s.on_cooldown(later, game_id, player)
            <==> later < s.next_available(now, game_id, player)),
{
}

/// The count of a player's actions in a game is how often they were let
/// through, as far as it can be counted.
pub proof fn law_actions_are_counted(calls: Seq<Call>, game_id: Symbol, player: Address)
    ensures
        CooldownManagerState::empty().run(calls).action_count(game_id, player)
            == if CooldownManagerState::empty().actions(calls, game_id, player) <= u32::MAX {
            CooldownManagerState::empty().actions(calls, game_id, player)
        } else {
            u32::MAX as nat
        },
    decreases calls.len(),
{
    if calls.len() > 0 {
        law_actions_are_counted(calls.drop_last(), game_id, player);
    }
}

/// Before anything is called the ledger holds nothing.
pub proof fn law_starts_empty()
    ensures
        CooldownManagerState::empty().config is None,
        CooldownManagerState::empty().games == Map::<Symbol, u64>::empty(),
        CooldownManagerState::empty().player_cooldowns == Map::<
            (Symbol, Address),
            CooldownState,
        >::empty(),
{
}

/// Without an admin nobody is asked and everybody is refused. Otherwise the
/// caller is asked for, the admin is let through, and all others are refused.
pub proof fn law_admin_is_let_through(s: CooldownManagerState, caller: Address)
    ensures
        s.config is None ==> s.admin_result(caller) == Err::<(), Error>(Error::NotInitialized)
            && s.auth_asks(caller) == Seq::<Effect<DataKey, Event>>::empty(),
        s.config is Some ==> s.auth_asks(caller) =~= seq![Effect::RequireAuth(caller)],
        s.config is Some && caller == s.config->0.admin ==> s.admin_result(caller) == Ok::<
            (),
            Error,
        >(()),
        s.config is Some && caller != s.config->0.admin ==> s.admin_result(caller) == Err::<
            (),
            Error,
        >(Error::NotAuthorized),
{
}

/// A contract that is not set up yet is set up as asked: what `init`
/// was given is written, nothing else changes, and the admin is asked for.
/// Otherwise nothing is written.
pub proof fn law_init_sets_up(s: CooldownManagerState, config: Config)
    ensures
        s.config is None ==> {
            &&& s.init_result() == Ok::<(), Error>(())
            &&& s.after_init(config.admin) == (CooldownManagerState { config: Some(config), ..s })
            &&& s.init_asks(config.admin) =~= seq![
                Effect::RequireAuth(config.admin),
                Effect::Store(DataKey::Admin),
            ]
        },
        s.config is Some ==> {
            &&& s.init_result() == Err::<(), Error>(Error::AlreadyInitialized)
            &&& s.after_init(config.admin) == s
            &&& s.init_asks(config.admin) =~= Seq::<Effect<DataKey, Event>>::empty()
        },
{
}

/// The admin sets the window of the one game that is given, to any length but
/// none at all.
pub proof fn law_register_sets_window(
    s: CooldownManagerState,
    caller: Address,
    game_id: Symbol,
    cooldown_secs: u64,
)
    requires
        s.config is Some,
        caller == s.config->0.admin,
    ensures
        cooldown_secs > 0 ==> {
            &&& s.register_result(caller, cooldown_secs) == Ok::<(), Error>(())
            &&& s.after_register(caller, game_id, cooldown_secs) == (CooldownManagerState {
                games: s.games.insert(game_id, cooldown_secs),
                ..s
            })
            &&& s.register_asks(caller, game_id, cooldown_secs) =~= seq![
                Effect::RequireAuth(caller),
                Effect::Store(DataKey::GameCooldown(game_id)),
                Effect::Publish(
                    Event::GameRegistered(GameRegistered { game_id, cooldown_secs }),
                ),
            ]
        },
        cooldown_secs == 0 ==> {
            &&& s.register_result(caller, cooldown_secs) == Err::<(), Error>(
                Error::InvalidDuration,
            )
            &&& s.after_register(caller, game_id, cooldown_secs) == s
            &&& s.register_asks(caller, game_id, cooldown_secs) =~= seq![
                Effect::RequireAuth(caller),
            ]
        },
{
}

/// A player who has never acted in a registered game, or whose window since
/// the last action is over, is let through: the action is noted with the time
/// and the window of now, and they learn when that window is over.
pub proof fn law_idle_player_is_let_through(
    s: CooldownManagerState,
    now: u64,
    caller: Address,
    game_id: Symbol,
    player: Address,
)
    requires
        s.config is Some,
        caller == s.config->0.admin,
        s.games.contains_key(game_id),
        !s.player_cooldowns.contains_key((game_id, player)) || now >= s.player_cooldowns[(
            game_id,
            player,
        )].last_action_ts + s.player_cooldowns[(game_id, player)].cooldown_secs,
    ensures
        s.consume_result(now, caller, game_id, player) is Ok,
        now + s.games[game_id] <= u64::MAX ==> s.consume_result(now, caller, game_id, player)->Ok_0
            == now + s.games[game_id],
        now + s.games[game_id] > u64::MAX ==> s.consume_result(now, caller, game_id, player)->Ok_0
            == u64::MAX,
        s.after_consume(now, caller, game_id, player).config == s.config,
        s.after_consume(now, caller, game_id, player).games == s.games,
        s.after_consume(now, caller, game_id, player).player_cooldowns
            == s.player_cooldowns.insert(
            (game_id, player),
            s.after_consume(now, caller, game_id, player).player_cooldowns[(game_id, player)],
        ),
        s.after_consume(now, caller, game_id, player).player_cooldowns[(
            game_id,
            player,
        )].last_action_ts == now,
        s.after_consume(now, caller, game_id, player).player_cooldowns[(
            game_id,
            player,
        )].cooldown_secs == s.games[game_id],
        !s.player_cooldowns.contains_key((game_id, player)) ==> s.after_consume(
            now,
            caller,
            game_id,
            player,
        ).player_cooldowns[(game_id, player)].action_count == 1,
        s.player_cooldowns.contains_key((game_id, player)) && s.player_cooldowns[(
            game_id,
            player,
        )].action_count < u32::MAX ==> s.after_consume(
            now,
            caller,
            game_id,
            player,
        ).player_cooldowns[(game_id, player)].action_count == s.player_cooldowns[(
            game_id,
            player,
        )].action_count + 1,
        s.player_cooldowns.contains_key((game_id, player)) && s.player_cooldowns[(
            game_id,
            player,
        )].action_count == u32::MAX ==> s.after_consume(
            now,
            caller,
            game_id,
            player,
        ).player_cooldowns[(game_id, player)].action_count == u32::MAX,
        s.consume_asks(now, caller, game_id, player) =~= seq![
            Effect::RequireAuth(caller),
            Effect::Store(DataKey::PlayerCooldown(game_id, player)),
            Effect::ExtendTtl {
                key: DataKey::PlayerCooldown(game_id, player),
                threshold: 518_400,
                extend_to: 518_400,
            },
            Effect::Publish(
                Event::CooldownConsumed(
                    CooldownConsumed {
                        game_id,
                        player,
                        next_available_ts: s.consume_result(now, caller, game_id, player)->Ok_0,
                    },
                ),
            ),
        ],
{
}

/// The admin's request for a player is refused only if the game is unknown or
/// the window since the last action still runs. Then nothing is noted.
pub proof fn law_consume_is_refused_for_a_reason(
    s: CooldownManagerState,
    now: u64,
    caller: Address,
    game_id: Symbol,
    player: Address,
)
    requires
        s.config is Some,
        caller == s.config->0.admin,
    ensures
        !s.games.contains_key(game_id) ==> s.consume_result(now, caller, game_id, player) == Err::<
            u64,
            Error,
        >(Error::GameNotRegistered),
        s.games.contains_key(game_id) && s.player_cooldowns.contains_key((game_id, player))
            && s.player_cooldowns[(game_id, player)].cooldown_secs > 0 && now
            < s.player_cooldowns[(game_id, player)].last_action_ts + s.player_cooldowns[(
            game_id,
            player,
        )].cooldown_secs ==> s.consume_result(now, caller, game_id, player) == Err::<u64, Error>(
            Error::CooldownActive,
        ),
        s.consume_result(now, caller, game_id, player) is Err ==> s.after_consume(
            now,
            caller,
            game_id,
            player,
        ) == s && s.consume_asks(now, caller, game_id, player) =~= seq![
            Effect::RequireAuth(caller),
        ],
{
}

/// The time given for the next action is the end of the window since the last
/// one, or 0 if there was none or the end is past. The count is the one noted.
pub proof fn law_readings_are_what_was_noted(
    s: CooldownManagerState,
    now: u64,
    game_id: Symbol,
    player: Address,
)
    ensures
        !s.player_cooldowns.contains_key((game_id, player)) ==> s.next_available(
            now,
            game_id,
            player,
        ) == 0 && s.action_count(game_id, player) == 0,
        s.player_cooldowns.contains_key((game_id, player)) ==> {
            let noted = s.player_cooldowns[(game_id, player)];
            let end = noted.last_action_ts + noted.cooldown_secs;
            &&& s.action_count(game_id, player) == noted.action_count
            &&& now < end <= u64::MAX ==> s.next_available(now, game_id, player) == end
            &&& end <= now ==> s.next_available(now, game_id, player) == 0
            &&& end > u64::MAX && now < u64::MAX ==> s.next_available(now, game_id, player)
                == u64::MAX
            &&& now == u64::MAX ==> s.next_available(now, game_id, player) == 0
        },
{
}

} // verus!
