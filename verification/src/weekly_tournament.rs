//! Weekly tournaments. Players pay an entry fee, game contracts post scores,
//! and when a round is finalised its winners share the prize pool.
//!
//! The admin calls `init`, then `open_round` to start a week. Players call
//! `enter`, and scores come in through `post_score`. After the deadline the
//! admin calls `finalise_round`, which pays the winners.

use vstd::prelude::*;

use crate::address::{Address, Key};
use crate::bps;
use crate::env::{bumped, lemma_moved_add, moved, Effect, Env};
use crate::table::Table;

verus! {

#[derive(Copy, Clone, Debug, Eq, PartialEq, PartialOrd, Ord)]
pub enum Error {
    AlreadyInitialized,
    NotInitialized,
    NotAuthorized,
    NoActiveRound,
    RoundAlreadyOpen,
    RoundNotEnded,
    AlreadyEntered,
    NotEntered,
    InvalidConfig,
    Overflow,
}

impl Error {
    /// The number by which callers of the contract know the error.
    pub fn code(self) -> (code: u32)
        ensures
            code == match self {
                Error::AlreadyInitialized => 1u32,
                Error::NotInitialized => 2,
                Error::NotAuthorized => 3,
                Error::NoActiveRound => 4,
                Error::RoundAlreadyOpen => 5,
                Error::RoundNotEnded => 6,
                Error::AlreadyEntered => 7,
                Error::NotEntered => 8,
                Error::InvalidConfig => 9,
                Error::Overflow => 10,
            },
    {
        match self {
            Error::AlreadyInitialized => 1,
            Error::NotInitialized => 2,
            Error::NotAuthorized => 3,
            Error::NoActiveRound => 4,
            Error::RoundAlreadyOpen => 5,
            Error::RoundNotEnded => 6,
            Error::AlreadyEntered => 7,
            Error::NotEntered => 8,
            Error::InvalidConfig => 9,
            Error::Overflow => 10,
        }
    }
}

/// The names of the contract's ledger entries.
#[derive(Clone, Copy, Debug, Eq, PartialEq)]
pub enum DataKey {
    Admin,
    Token,
    EntryFee,
    PrizeRatiosBps,
    CurrentRound,
    RoundMeta(u32),
    PlayerScore(u32, Address),
    PlayerEntered(u32, Address),
}

#[derive(Clone, Copy, Debug, Eq, PartialEq)]
pub struct RoundMeta {
    pub round_id: u32,
    pub start_ts: u64,
    pub end_ts: u64,
    pub prize_pool: i128,
    pub participant_count: u32,
    pub finalised: bool,
}

impl View for RoundMeta {
    type V = RoundMeta;

    open spec fn view(&self) -> RoundMeta {
        *self
    }
}

#[derive(Clone, Copy, Debug, Eq, PartialEq)]
pub struct PlayerScoreEntry {
    pub player: Address,
    pub score: u64,
}

#[derive(Clone, Copy, Debug, Eq, PartialEq)]
pub struct RoundOpened {
    pub round_id: u32,
    pub end_ts: u64,
}

#[derive(Clone, Copy, Debug, Eq, PartialEq)]
pub struct PlayerEntered {
    pub round_id: u32,
    pub player: Address,
    pub fee_paid: i128,
}

#[derive(Clone, Copy, Debug, Eq, PartialEq)]
pub struct ScorePosted {
    pub round_id: u32,
    pub player: Address,
    pub score: u64,
}

#[derive(Clone, Copy, Debug, Eq, PartialEq)]
pub struct RoundFinalised {
    pub round_id: u32,
    pub total_prize: i128,
}

#[derive(Clone, Copy, Debug, Eq, PartialEq)]
pub enum Event {
    RoundOpened(RoundOpened),
    PlayerEntered(PlayerEntered),
    ScorePosted(ScorePosted),
    RoundFinalised(RoundFinalised),
}

/// What `init` writes.
pub struct Config {
    pub admin: Address,
    pub token: Address,
    pub entry_fee: i128,
    pub prize_ratios_bps: Vec<u32>,
}

/// What `init` writes, with the ratios as a sequence.
#[verifier::ext_equal]
pub struct ConfigState {
    pub admin: Address,
    pub token: Address,
    pub entry_fee: i128,
    pub prize_ratios_bps: Seq<u32>,
}

impl View for Config {
    type V = ConfigState;

    open spec fn view(&self) -> ConfigState {
        ConfigState {
            admin: self.admin,
            token: self.token,
            entry_fee: self.entry_fee,
            prize_ratios_bps: self.prize_ratios_bps@,
        }
    }
}

/// The contract's ledger entries.
pub struct WeeklyTournament {
    pub config: Option<Config>,
    pub current_round: Option<u32>,
    pub rounds: Table<u32, RoundMeta>,
    pub player_score: Table<(u32, Address), u64>,
    pub player_entered: Table<(u32, Address), bool>,
}

/// The contract's ledger entries as maps.
#[verifier::ext_equal]
pub struct WeeklyTournamentState {
    pub config: Option<ConfigState>,
    pub current_round: Option<u32>,
    pub rounds: Map<u32, RoundMeta>,
    pub player_score: Map<(u32, Address), u64>,
    pub player_entered: Map<(u32, Address), bool>,
}

impl View for WeeklyTournament {
    type V = WeeklyTournamentState;

    open spec fn view(&self) -> WeeklyTournamentState {
        WeeklyTournamentState {
            config: match self.config {
                Some(config) => Some(config@),
                None => None,
            },
            current_round: self.current_round,
            rounds: self.rounds@,
            player_score: self.player_score@,
            player_entered: self.player_entered@,
        }
    }
}

/// The part of a prize pool that a ratio gives, rounded down.
pub open spec fn share(prize_pool: i128, ratio_bps: u32) -> int {
    prize_pool * ratio_bps / 10_000
}

/// A share can be computed without going past the numbers there are.
pub open spec fn share_fits(prize_pool: i128, ratio_bps: u32) -> bool {
    i128::MIN <= prize_pool * ratio_bps <= i128::MAX
}

/// How many of the first `n` places, from the first on, have shares that can be computed.
pub open spec fn places_paid(prize_pool: i128, ratios_bps: Seq<u32>, n: nat) -> nat
    decreases n,
{
    if n == 0 {
        0
    } else {
        let before = places_paid(prize_pool, ratios_bps, (n - 1) as nat);
        if before == n - 1 && share_fits(prize_pool, ratios_bps[n - 1]) {
            n
        } else {
            before
        }
    }
}

/// The payments to the first `n` places. A place whose share is nothing is not paid.
pub open spec fn payouts(
    token: Address,
    contract: Address,
    prize_pool: i128,
    ratios_bps: Seq<u32>,
    winners: Seq<Address>,
    n: nat,
) -> Seq<Effect<DataKey, Event>>
    decreases n,
{
    if n == 0 {
        seq![]
    } else {
        let before = payouts(token, contract, prize_pool, ratios_bps, winners, (n - 1) as nat);
        let amount = share(prize_pool, ratios_bps[n - 1]);
        if amount > 0 {
            before.push(
                Effect::Transfer {
                    token,
                    from: contract,
                    to: winners[n - 1],
                    amount: amount as i128,
                },
            )
        } else {
            before
        }
    }
}

/// The units that a list of requests moves away from an address.
pub open spec fn paid_from(contract: Address, asked: Seq<Effect<DataKey, Event>>) -> int
    decreases asked.len(),
{
    if asked.len() == 0 {
        0
    } else {
        paid_from(contract, asked.drop_last()) + match asked.last() {
            Effect::Transfer { from, amount, .. } => if from == contract {
                amount as int
            } else {
                0
            },
            _ => 0,
        }
    }
}

impl WeeklyTournamentState {
    /// The ledger before `init`.
    pub open spec fn empty() -> Self {
        WeeklyTournamentState {
            config: None,
            current_round: None,
            rounds: Map::empty(),
            player_score: Map::empty(),
            player_entered: Map::empty(),
        }
    }

    /// The request for an authorisation, once there is a contract to call.
    pub open spec fn auth_asks(self, address: Address) -> Seq<Effect<DataKey, Event>> {
        if self.config is Some {
            seq![Effect::RequireAuth(address)]
        } else {
            seq![]
        }
    }

    /// Only the admin may go on.
    pub open spec fn admin_result(self, caller: Address) -> Result<(), Error> {
        match self.config {
            None => Err(Error::NotInitialized),
            Some(config) => if caller == config.admin {
                Ok(())
            } else {
                Err(Error::NotAuthorized)
            },
        }
    }

    /// The prize ratios have to make up the whole.
    pub open spec fn init_result(self, config: ConfigState) -> Result<(), Error> {
        if self.config is Some {
            Err(Error::AlreadyInitialized)
        } else if bps::sum(config.prize_ratios_bps) != bps::WHOLE_BPS {
            Err(Error::InvalidConfig)
        } else {
            Ok(())
        }
    }

    pub open spec fn after_init(self, config: ConfigState) -> Self {
        if self.init_result(config) is Ok {
            WeeklyTournamentState { config: Some(config), ..self }
        } else {
            self
        }
    }

    pub open spec fn init_asks(self, config: ConfigState) -> Seq<Effect<DataKey, Event>> {
        if self.config is Some {
            seq![]
        } else if self.init_result(config) is Err {
            seq![Effect::RequireAuth(config.admin)]
        } else {
            seq![
                Effect::RequireAuth(config.admin),
                Effect::Store(DataKey::Admin),
                Effect::Store(DataKey::Token),
                Effect::Store(DataKey::EntryFee),
                Effect::Store(DataKey::PrizeRatiosBps),
            ]
        }
    }

    /// The round that was opened last has its record.
    pub open spec fn current_known(self) -> bool {
        self.current_round is Some ==> self.rounds.contains_key(self.current_round->0)
    }

    /// A round can be opened once the one before it is finalised.
    pub open spec fn open_result(self, admin: Address) -> Result<(), Error> {
        match self.admin_result(admin) {
            Err(e) => Err(e),
            Ok(_) => match self.current_round {
                None => Ok(()),
                Some(current) => if !self.rounds.contains_key(current) {
                    Err(Error::NoActiveRound)
                } else if !self.rounds[current].finalised {
                    Err(Error::RoundAlreadyOpen)
                } else {
                    Ok(())
                },
            },
        }
    }

    /// When a round ends that starts now.
    pub open spec fn end_of_round(now: u64, duration_secs: u64) -> u64 {
        now.saturating_add(duration_secs)
    }

    pub open spec fn after_open(
        self,
        now: u64,
        admin: Address,
        round_id: u32,
        duration_secs: u64,
    ) -> Self {
        if self.open_result(admin) is Ok {
            WeeklyTournamentState {
                current_round: Some(round_id),
                rounds: self.rounds.insert(
                    round_id,
                    RoundMeta {
                        round_id,
                        start_ts: now,
                        end_ts: Self::end_of_round(now, duration_secs),
                        prize_pool: 0,
                        participant_count: 0,
                        finalised: false,
                    },
                ),
                ..self
            }
        } else {
            self
        }
    }

    pub open spec fn open_asks(
        self,
        now: u64,
        admin: Address,
        round_id: u32,
        duration_secs: u64,
    ) -> Seq<Effect<DataKey, Event>> {
        self.auth_asks(admin) + if self.open_result(admin) is Ok {
            seq![
                Effect::Store(DataKey::CurrentRound),
                Effect::Store(DataKey::RoundMeta(round_id)),
                bumped(DataKey::RoundMeta(round_id)),
                Effect::Publish(
                    Event::RoundOpened(
                        RoundOpened { round_id, end_ts: Self::end_of_round(now, duration_secs) },
                    ),
                ),
            ]
        } else {
            seq![]
        }
    }

    /// Nothing but the size of the prize pool stands in the way of entering.
    pub open spec fn may_enter(self, player: Address) -> Result<(), Error> {
        if self.config is None {
            Err(Error::NotInitialized)
        } else if self.current_round is None {
            Err(Error::NoActiveRound)
        } else if self.player_entered.contains_key((self.current_round->0, player)) {
            Err(Error::AlreadyEntered)
        } else {
            Ok(())
        }
    }

    /// The prize pool after one more entry fee.
    pub open spec fn next_pool(self) -> int {
        self.rounds[self.current_round->0].prize_pool + self.config->0.entry_fee
    }

    pub open spec fn enter_result(self, player: Address) -> Result<(), Error> {
        match self.may_enter(player) {
            Err(e) => Err(e),
            Ok(_) => if i128::MIN <= self.next_pool() <= i128::MAX {
                Ok(())
            } else {
                Err(Error::Overflow)
            },
        }
    }

    pub open spec fn after_enter(self, player: Address) -> Self {
        if self.enter_result(player) is Ok {
            let round_id = self.current_round->0;
            let meta = self.rounds[round_id];
            WeeklyTournamentState {
                rounds: self.rounds.insert(
                    round_id,
                    RoundMeta {
                        prize_pool: self.next_pool() as i128,
                        participant_count: meta.participant_count.saturating_add(1),
                        ..meta
                    },
                ),
                player_entered: self.player_entered.insert((round_id, player), true),
                ..self
            }
        } else {
            self
        }
    }

    /// The fee is asked for before the prize pool is looked at.
    pub open spec fn enter_asks(self, contract: Address, player: Address) -> Seq<
        Effect<DataKey, Event>,
    > {
        let round_id = self.current_round->0;
        let fee = self.config->0.entry_fee;
        self.auth_asks(player) + if self.may_enter(player) is Ok {
            seq![
                Effect::Transfer {
                    token: self.config->0.token,
                    from: player,
                    to: contract,
                    amount: fee,
                },
            ] + if self.enter_result(player) is Ok {
                seq![
                    Effect::Store(DataKey::PlayerEntered(round_id, player)),
                    bumped(DataKey::PlayerEntered(round_id, player)),
                    Effect::Store(DataKey::RoundMeta(round_id)),
                    Effect::Publish(
                        Event::PlayerEntered(PlayerEntered { round_id, player, fee_paid: fee }),
                    ),
                ]
            } else {
                seq![]
            }
        } else {
            seq![]
        }
    }

    /// A player's best score in a round, 0 if none was posted.
    pub open spec fn score(self, round_id: u32, player: Address) -> u64 {
        if self.player_score.contains_key((round_id, player)) {
            self.player_score[(round_id, player)]
        } else {
            0
        }
    }

    pub open spec fn post_result(self, caller: Address, player: Address) -> Result<(), Error> {
        match self.admin_result(caller) {
            Err(e) => Err(e),
            Ok(_) => if self.current_round is None {
                Err(Error::NoActiveRound)
            } else if !self.player_entered.contains_key((self.current_round->0, player)) {
                Err(Error::NotEntered)
            } else {
                Ok(())
            },
        }
    }

    /// The better of a player's score in the current round and another one.
    pub open spec fn best(self, player: Address, score: u64) -> u64 {
        if self.score(self.current_round->0, player) < score {
            score
        } else {
            self.score(self.current_round->0, player)
        }
    }

    pub open spec fn after_post(self, caller: Address, player: Address, score: u64) -> Self {
        if self.post_result(caller, player) is Ok {
            WeeklyTournamentState {
                player_score: self.player_score.insert(
                    (self.current_round->0, player),
                    self.best(player, score),
                ),
                ..self
            }
        } else {
            self
        }
    }

    pub open spec fn post_asks(self, caller: Address, player: Address, score: u64) -> Seq<
        Effect<DataKey, Event>,
    > {
        let round_id = self.current_round->0;
        self.auth_asks(caller) + if self.post_result(caller, player) is Ok {
            seq![
                Effect::Store(DataKey::PlayerScore(round_id, player)),
                bumped(DataKey::PlayerScore(round_id, player)),
                Effect::Publish(
                    Event::ScorePosted(
                        ScorePosted { round_id, player, score: self.best(player, score) },
                    ),
                ),
            ]
        } else {
            seq![]
        }
    }

    /// The round that there is to finalise, once its deadline has come.
    pub open spec fn may_finalise(self, now: u64, admin: Address) -> Result<RoundMeta, Error> {
        match self.admin_result(admin) {
            Err(e) => Err(e),
            Ok(_) => if self.current_round is None || !self.rounds.contains_key(
                self.current_round->0,
            ) {
                Err(Error::NoActiveRound)
            } else if self.rounds[self.current_round->0].finalised || now
                < self.rounds[self.current_round->0].end_ts {
                Err(Error::RoundNotEnded)
            } else {
                Ok(self.rounds[self.current_round->0])
            },
        }
    }

    /// How many winners have a ratio.
    pub open spec fn places(self, winners: Seq<Address>) -> nat {
        if winners.len() < self.config->0.prize_ratios_bps.len() {
            winners.len()
        } else {
            self.config->0.prize_ratios_bps.len()
        }
    }

    /// How many of them can be paid before a share goes past the numbers there are.
    pub open spec fn payable(self, meta: RoundMeta, winners: Seq<Address>) -> nat {
        places_paid(meta.prize_pool, self.config->0.prize_ratios_bps, self.places(winners))
    }

    /// The prize pool that was shared.
    pub open spec fn finalise_result(
        self,
        now: u64,
        admin: Address,
        winners: Seq<Address>,
    ) -> Result<i128, Error> {
        match self.may_finalise(now, admin) {
            Err(e) => Err(e),
            Ok(meta) => if self.payable(meta, winners) < self.places(winners) {
                Err(Error::Overflow)
            } else {
                Ok(meta.prize_pool)
            },
        }
    }

    pub open spec fn after_finalise(
        self,
        now: u64,
        admin: Address,
        winners: Seq<Address>,
    ) -> Self {
        if self.finalise_result(now, admin, winners) is Ok {
            WeeklyTournamentState {
                rounds: self.rounds.insert(
                    self.current_round->0,
                    RoundMeta { finalised: true, ..self.rounds[self.current_round->0] },
                ),
                ..self
            }
        } else {
            self
        }
    }

    /// The winners are paid place by place, in their order.
    pub open spec fn finalise_asks(
        self,
        now: u64,
        contract: Address,
        admin: Address,
        winners: Seq<Address>,
    ) -> Seq<Effect<DataKey, Event>> {
        let round_id = self.current_round->0;
        self.auth_asks(admin) + match self.may_finalise(now, admin) {
            Err(_) => seq![],
            Ok(meta) => payouts(
                self.config->0.token,
                contract,
                meta.prize_pool,
                self.config->0.prize_ratios_bps,
                winners,
                self.payable(meta, winners),
            ) + if self.finalise_result(now, admin, winners) is Ok {
                seq![
                    Effect::Store(DataKey::RoundMeta(round_id)),
                    Effect::Publish(
                        Event::RoundFinalised(
                            RoundFinalised { round_id, total_prize: meta.prize_pool },
                        ),
                    ),
                ]
            } else {
                seq![]
            },
        }
    }
}

proof fn lemma_places_paid(prize_pool: i128, ratios_bps: Seq<u32>, n: nat, i: nat)
    requires
        i < n,
        places_paid(prize_pool, ratios_bps, i) == i,
        !share_fits(prize_pool, ratios_bps[i as int]),
    ensures
        places_paid(prize_pool, ratios_bps, n) == i,
    decreases n,
{
    if n > i + 1 {
        lemma_places_paid(prize_pool, ratios_bps, (n - 1) as nat, i);
    }
}

impl WeeklyTournament {
    /// The contract before `init`.
    pub fn new() -> (tournament: Self)
        ensures
            tournament@ == WeeklyTournamentState::empty(),
    {
        WeeklyTournament {
            config: None,
            current_round: None,
            rounds: Table::new(),
            player_score: Table::new(),
            player_entered: Table::new(),
        }
    }

    /// Asks for the caller's authorisation, and refuses anyone but the admin.
    pub fn require_admin(&self, env: &mut Env<DataKey, Event>, caller: Address) -> (r: Result<
        (),
        Error,
    >)
        ensures
            r == self@.admin_result(caller),
            final(env).after(*old(env), self@.auth_asks(caller)),
    {
        match &self.config {
            None => Err(Error::NotInitialized),
            Some(config) => {
                env.require_auth(caller);
                if caller.same(&config.admin) {
                    Ok(())
                } else {
                    Err(Error::NotAuthorized)
                }
            },
        }
    }

    pub fn init(
        &mut self,
        env: &mut Env<DataKey, Event>,
        admin: Address,
        token: Address,
        entry_fee: i128,
        prize_ratios_bps: Vec<u32>,
    ) -> (r: Result<(), Error>)
        ensures
            r is Err ==> final(self)@ == old(self)@,
            r == old(self)@.init_result(
                Config { admin, token, entry_fee, prize_ratios_bps }@,
            ),
            final(self)@ == old(self)@.after_init(
                Config { admin, token, entry_fee, prize_ratios_bps }@,
            ),
            final(env).after(
                *old(env),
                old(self)@.init_asks(Config { admin, token, entry_fee, prize_ratios_bps }@),
            ),
    {
        if self.config.is_some() {
            return Err(Error::AlreadyInitialized);
        }
        env.require_auth(admin);
        let total: u32 = bps::total(&prize_ratios_bps);
        if total != bps::WHOLE_BPS {
            return Err(Error::InvalidConfig);
        }
        self.config = Some(Config { admin, token, entry_fee, prize_ratios_bps });
        env.store(DataKey::Admin);
        env.store(DataKey::Token);
        env.store(DataKey::EntryFee);
        env.store(DataKey::PrizeRatiosBps);
        Ok(())
    }

    /// The admin starts a round.
    pub fn open_round(
        &mut self,
        env: &mut Env<DataKey, Event>,
        admin: Address,
        round_id: u32,
        duration_secs: u64,
    ) -> (r: Result<(), Error>)
        ensures
            r is Err ==> final(self)@ == old(self)@,
            r == old(self)@.open_result(admin),
            final(self)@ == old(self)@.after_open(
                old(env).timestamp,
                admin,
                round_id,
                duration_secs,
            ),
            final(env).after(
                *old(env),
                old(self)@.open_asks(old(env).timestamp, admin, round_id, duration_secs),
            ),
    {
        if let Err(e) = self.require_admin(env, admin) {
            return Err(e);
        }
        if let Some(current) = self.current_round {
            match self.rounds.get(&current) {
                None => {
                    return Err(Error::NoActiveRound);
                },
                Some(meta) => {
                    if !meta.finalised {
                        return Err(Error::RoundAlreadyOpen);
                    }
                },
            }
        }
        let now: u64 = env.timestamp;
        let end_ts: u64 = now.saturating_add(duration_secs);
        self.current_round = Some(round_id);
        self.rounds.set(
            round_id,
            RoundMeta {
                round_id,
                start_ts: now,
                end_ts,
                prize_pool: 0,
                participant_count: 0,
                finalised: false,
            },
        );
        env.store(DataKey::CurrentRound);
        env.store(DataKey::RoundMeta(round_id));
        env.bump(DataKey::RoundMeta(round_id));
        env.publish(Event::RoundOpened(RoundOpened { round_id, end_ts }));
        Ok(())
    }

    /// A player pays the entry fee and takes part in the current round.
    pub fn enter(&mut self, env: &mut Env<DataKey, Event>, player: Address) -> (r: Result<
        (),
        Error,
    >)
        requires
            old(self)@.may_enter(player) is Ok ==> old(self)@.current_known(),
        ensures
            r is Err ==> final(self)@ == old(self)@,
            r == old(self)@.enter_result(player),
            final(self)@ == old(self)@.after_enter(player),
            final(env).after(*old(env), old(self)@.enter_asks(old(env).contract, player)),
    {
        let (fee, token): (i128, Address) = match &self.config {
            Some(config) => (config.entry_fee, config.token),
            None => {
                return Err(Error::NotInitialized);
            },
        };
        env.require_auth(player);
        let round_id: u32 = match self.current_round {
            Some(round_id) => round_id,
            None => {
                return Err(Error::NoActiveRound);
            },
        };
        if self.player_entered.has(&(round_id, player)) {
            return Err(Error::AlreadyEntered);
        }
        let contract: Address = env.contract;
        env.transfer(token, player, contract, fee);

        let mut meta: RoundMeta = *self.rounds.get(&round_id).unwrap();
        meta.prize_pool = match meta.prize_pool.checked_add(fee) {
            Some(prize_pool) => prize_pool,
            None => {
                return Err(Error::Overflow);
            },
        };
        meta.participant_count = meta.participant_count.saturating_add(1);

        self.player_entered.set((round_id, player), true);
        env.store(DataKey::PlayerEntered(round_id, player));
        env.bump(DataKey::PlayerEntered(round_id, player));
        self.rounds.set(round_id, meta);
        env.store(DataKey::RoundMeta(round_id));
        env.publish(Event::PlayerEntered(PlayerEntered { round_id, player, fee_paid: fee }));
        Ok(())
    }

    /// Posts a score of a player in the current round. The best one counts.
    pub fn post_score(
        &mut self,
        env: &mut Env<DataKey, Event>,
        caller: Address,
        player: Address,
        score: u64,
    ) -> (r: Result<(), Error>)
        ensures
            r is Err ==> final(self)@ == old(self)@,
            r == old(self)@.post_result(caller, player),
            final(self)@ == old(self)@.after_post(caller, player, score),
            final(env).after(*old(env), old(self)@.post_asks(caller, player, score)),
    {
        if let Err(e) = self.require_admin(env, caller) {
            return Err(e);
        }
        let round_id: u32 = match self.current_round {
            Some(round_id) => round_id,
            None => {
                return Err(Error::NoActiveRound);
            },
        };
        if !self.player_entered.has(&(round_id, player)) {
            return Err(Error::NotEntered);
        }
        let existing: u64 = self.get_player_score(round_id, player);
        let new_score: u64 = if existing < score {
            score
        } else {
            existing
        };
        self.player_score.set((round_id, player), new_score);
        env.store(DataKey::PlayerScore(round_id, player));
        env.bump(DataKey::PlayerScore(round_id, player));
        env.publish(Event::ScorePosted(ScorePosted { round_id, player, score: new_score }));
        Ok(())
    }

    /// Finalises the current round, after its deadline, by paying its winners.
    /// The admin names them in their order, highest score first, one for each
    /// ratio.
    pub fn finalise_round(
        &mut self,
        env: &mut Env<DataKey, Event>,
        admin: Address,
        winners: Vec<Address>,
    ) -> (r: Result<i128, Error>)
        ensures
            r is Err ==> final(self)@ == old(self)@,
            r == old(self)@.finalise_result(old(env).timestamp, admin, winners@),
            final(self)@ == old(self)@.after_finalise(old(env).timestamp, admin, winners@),
            final(env).after(
                *old(env),
                old(self)@.finalise_asks(
                    old(env).timestamp,
                    old(env).contract,
                    admin,
                    winners@,
                ),
            ),
    {
        if let Err(e) = self.require_admin(env, admin) {
            return Err(e);
        }
        let round_id: u32 = match self.current_round {
            Some(round_id) => round_id,
            None => {
                return Err(Error::NoActiveRound);
            },
        };
        let mut meta: RoundMeta = match self.rounds.get(&round_id) {
            Some(meta) => *meta,
            None => {
                return Err(Error::NoActiveRound);
            },
        };
        if meta.finalised || env.timestamp < meta.end_ts {
            return Err(Error::RoundNotEnded);
        }
        let config: &Config = match &self.config {
            Some(config) => config,
            None => {
                return Err(Error::NotInitialized);
            },
        };
        let ratios: &Vec<u32> = &config.prize_ratios_bps;
        let prize_pool: i128 = meta.prize_pool;
        let contract: Address = env.contract;
        let ghost asked = self@.auth_asks(admin);

        let mut idx: usize = 0;
        while idx < ratios.len() && idx < winners.len()
            invariant
                idx <= self@.places(winners@),
                self@ == old(self)@,
                self.config is Some,
                *config == self.config->0,
                *ratios == config.prize_ratios_bps,
                env.contract == contract,
                self@.may_finalise(old(env).timestamp, admin) is Ok,
                self@.may_finalise(old(env).timestamp, admin)->Ok_0.prize_pool == prize_pool,
                contract == old(env).contract,
                asked == self@.auth_asks(admin),
                places_paid(prize_pool, ratios@, idx as nat) == idx,
                env.after(
                    *old(env),
                    asked + payouts(
                        config.token,
                        contract,
                        prize_pool,
                        ratios@,
                        winners@,
                        idx as nat,
                    ),
                ),
            decreases ratios.len() - idx,
        {
            let share: i128 = match prize_pool.checked_mul(ratios[idx] as i128) {
                Some(product) => product / bps::WHOLE_BPS as i128,
                None => {
                    proof {
                        lemma_places_paid(prize_pool, ratios@, self@.places(winners@), idx as nat);
                    }
                    return Err(Error::Overflow);
                },
            };
            if share > 0 {
                env.transfer(config.token, contract, winners[idx], share);
            }
            idx = idx + 1;
        }

        meta.finalised = true;
        self.rounds.set(round_id, meta);
        env.store(DataKey::RoundMeta(round_id));
        env.publish(
            Event::RoundFinalised(RoundFinalised { round_id, total_prize: prize_pool }),
        );
        Ok(prize_pool)
    }

    pub fn get_current_round(&self) -> (r: Option<RoundMeta>)
        ensures
            r == if self@.current_round is Some && self@.rounds.contains_key(
                self@.current_round->0,
            ) {
                Some(self@.rounds[self@.current_round->0])
            } else {
                None
            },
    {
        match self.current_round {
            Some(round_id) => match self.rounds.get(&round_id) {
                Some(meta) => Some(*meta),
                None => None,
            },
            None => None,
        }
    }

    pub fn get_player_score(&self, round_id: u32, player: Address) -> (score: u64)
        ensures
            score == self@.score(round_id, player),
    {
        match self.player_score.get(&(round_id, player)) {
            Some(score) => *score,
            None => 0,
        }
    }
}

/// One call that may change the contract's ledger entries.
pub enum Call {
    Init { config: ConfigState },
    OpenRound { now: u64, admin: Address, round_id: u32, duration_secs: u64 },
    Enter { player: Address },
    PostScore { caller: Address, player: Address, score: u64 },
    FinaliseRound { now: u64, admin: Address, winners: Seq<Address> },
}

impl WeeklyTournamentState {
    pub open spec fn step(self, call: Call) -> Self {
        match call {
            Call::Init { config } => self.after_init(config),
            Call::OpenRound { now, admin, round_id, duration_secs } => self.after_open(
                now,
                admin,
                round_id,
                duration_secs,
            ),
            Call::Enter { player } => self.after_enter(player),
            Call::PostScore { caller, player, score } => self.after_post(caller, player, score),
            Call::FinaliseRound { now, admin, winners } => self.after_finalise(
                now,
                admin,
                winners,
            ),
        }
    }

    /// What becomes of the ledger when calls are made one after the other.
    pub open spec fn run(self, calls: Seq<Call>) -> Self
        decreases calls.len(),
    {
        if calls.len() == 0 {
            self
        } else {
            self.run(calls.drop_last()).step(calls.last())
        }
    }

    /// The admin whom the `init` among these calls set, if one succeeded.
    pub open spec fn admin_set(self, calls: Seq<Call>) -> Option<Address>
        decreases calls.len(),
    {
        if calls.len() == 0 {
            None
        } else {
            let before = self.admin_set(calls.drop_last());
            match calls.last() {
                Call::Init { config } => if self.run(calls.drop_last()).init_result(config) is Ok {
                    Some(config.admin)
                } else {
                    before
                },
                _ => before,
            }
        }
    }

    /// How many rounds these calls open.
    pub open spec fn rounds_opened(self, calls: Seq<Call>) -> nat
        decreases calls.len(),
    {
        if calls.len() == 0 {
            0
        } else {
            let before = self.rounds_opened(calls.drop_last());
            match calls.last() {
                Call::OpenRound { admin, .. } => if self.run(calls.drop_last()).open_result(
                    admin,
                ) is Ok {
                    before + 1
                } else {
                    before
                },
                _ => before,
            }
        }
    }

    /// The ratios make up the whole, the current round has its record, and the
    /// prize pool of each round is what its participants paid, as long as
    /// their number can be counted.
    pub open spec fn books_balance(self) -> bool {
        &&& self.config is Some ==> bps::sum(self.config->0.prize_ratios_bps) == bps::WHOLE_BPS
        &&& self.current_known()
        &&& self.config is None ==> self.rounds == Map::<u32, RoundMeta>::empty()
        &&& forall|round_id: u32| #[trigger]
            self.rounds.contains_key(round_id) ==> {
                &&& self.rounds[round_id].round_id == round_id
                &&& self.rounds[round_id].participant_count < u32::MAX
                    ==> self.rounds[round_id].prize_pool == self.config->0.entry_fee
                    * self.rounds[round_id].participant_count
                &&& self.config->0.entry_fee >= 0 ==> self.rounds[round_id].prize_pool >= 0
            }
    }
}

/// A contract is set up once: its admin, token, fee and ratios stay what they
/// are, and setting it up again is refused.
pub proof fn law_set_up_once(s: WeeklyTournamentState, calls: Seq<Call>, config: ConfigState)
    requires
        s.config is Some,
    ensures
        s.run(calls).config == s.config,
        s.run(calls).init_result(config) == Err::<(), Error>(Error::AlreadyInitialized),
    decreases calls.len(),
{
    if calls.len() > 0 {
        law_set_up_once(s, calls.drop_last(), config);
    }
}

/// Opening a round, posting scores and finalising succeed only for the admin,
/// and only with the admin's own authorisation.
pub proof fn law_admin_only(
    s: WeeklyTournamentState,
    now: u64,
    contract: Address,
    caller: Address,
    round_id: u32,
    duration_secs: u64,
    player: Address,
    score: u64,
    winners: Seq<Address>,
)
    ensures
        s.open_result(caller) is Ok ==> s.config is Some && caller == s.config->0.admin
            && s.open_asks(now, caller, round_id, duration_secs)[0] == Effect::<
            DataKey,
            Event,
        >::RequireAuth(s.config->0.admin),
        s.post_result(caller, player) is Ok ==> s.config is Some && caller == s.config->0.admin
            && s.post_asks(caller, player, score)[0] == Effect::<DataKey, Event>::RequireAuth(
            s.config->0.admin,
        ),
        s.finalise_result(now, caller, winners) is Ok ==> s.config is Some && caller
            == s.config->0.admin && s.finalise_asks(now, contract, caller, winners)[0] == Effect::<
            DataKey,
            Event,
        >::RequireAuth(s.config->0.admin),
{
}

/// From an empty ledger, whatever calls were made, the check for the admin
/// knows no admin until an `init` succeeds. From then on it asks for the
/// caller's authorisation and lets nobody through but the admin whom that
/// `init` set.
pub proof fn law_admin_check(calls: Seq<Call>, caller: Address)
    ensures
        match WeeklyTournamentState::empty().run(calls).config {
            Some(config) => WeeklyTournamentState::empty().admin_set(calls) == Some(config.admin),
            None => WeeklyTournamentState::empty().admin_set(calls) is None,
        },
        WeeklyTournamentState::empty().run(calls).admin_result(caller)
            == match WeeklyTournamentState::empty().admin_set(calls) {
            None => Err::<(), Error>(Error::NotInitialized),
            Some(admin) => if caller == admin {
                Ok(())
            } else {
                Err(Error::NotAuthorized)
            },
        },
        WeeklyTournamentState::empty().run(calls).auth_asks(caller)
            == match WeeklyTournamentState::empty().admin_set(calls) {
            None => Seq::<Effect<DataKey, Event>>::empty(),
            Some(_) => seq![Effect::RequireAuth(caller)],
        },
    decreases calls.len(),
{
    if calls.len() > 0 {
        law_admin_check(calls.drop_last(), caller);
    }
}

/// Whoever does not pass the check for the admin is given its error by every
/// call of the admin, which then changes nothing and asks for no more than
/// the check does.
pub proof fn law_others_are_refused(
    s: WeeklyTournamentState,
    e: Error,
    caller: Address,
    now: u64,
    contract: Address,
    round_id: u32,
    duration_secs: u64,
    player: Address,
    score: u64,
    winners: Seq<Address>,
)
    requires
        s.admin_result(caller) == Err::<(), Error>(e),
    ensures
        s.open_result(caller) == Err::<(), Error>(e),
        s.after_open(now, caller, round_id, duration_secs) == s,
        s.open_asks(now, caller, round_id, duration_secs) == s.auth_asks(caller),
        s.post_result(caller, player) == Err::<(), Error>(e),
        s.after_post(caller, player, score) == s,
        s.post_asks(caller, player, score) == s.auth_asks(caller),
        s.finalise_result(now, caller, winners) == Err::<i128, Error>(e),
        s.after_finalise(now, caller, winners) == s,
        s.finalise_asks(now, contract, caller, winners) == s.auth_asks(caller),
{
}

proof fn lemma_places_bound(prize_pool: i128, ratios_bps: Seq<u32>, n: nat)
    ensures
        places_paid(prize_pool, ratios_bps, n) <= n,
    decreases n,
{
    if n > 0 {
        lemma_places_bound(prize_pool, ratios_bps, (n - 1) as nat);
    }
}

proof fn lemma_paid_from_add(
    contract: Address,
    a: Seq<Effect<DataKey, Event>>,
    b: Seq<Effect<DataKey, Event>>,
)
    ensures
        paid_from(contract, a + b) == paid_from(contract, a) + paid_from(contract, b),
    decreases b.len(),
{
    if b.len() == 0 {
        assert(a + b =~= a);
    } else {
        lemma_paid_from_add(contract, a, b.drop_last());
        assert((a + b).drop_last() =~= a + b.drop_last());
    }
}

proof fn lemma_payouts_within(
    token: Address,
    contract: Address,
    prize_pool: i128,
    ratios_bps: Seq<u32>,
    winners: Seq<Address>,
    n: nat,
)
    requires
        prize_pool >= 0,
        n <= ratios_bps.len(),
        places_paid(prize_pool, ratios_bps, n) == n,
    ensures
        0 <= paid_from(contract, payouts(token, contract, prize_pool, ratios_bps, winners, n))
            * 10_000 <= prize_pool * bps::sum(ratios_bps.take(n as int)),
        prize_pool * bps::sum(ratios_bps.take(n as int)) <= paid_from(
            contract,
            payouts(token, contract, prize_pool, ratios_bps, winners, n),
        ) * 10_000 + n * 9_999,
    decreases n,
{
    if n > 0 {
        let m = (n - 1) as nat;
        lemma_places_bound(prize_pool, ratios_bps, m);
        lemma_payouts_within(token, contract, prize_pool, ratios_bps, winners, m);
        assert(ratios_bps.take(n as int).drop_last() =~= ratios_bps.take(m as int));
        let before = payouts(token, contract, prize_pool, ratios_bps, winners, m);
        let ratio = ratios_bps[n - 1];
        let amount = share(prize_pool, ratio);
        let sum = bps::sum(ratios_bps.take(m as int));
        let product = prize_pool * ratio;
        assert(product >= 0) by (nonlinear_arith)
            requires
                prize_pool >= 0,
                product == prize_pool * ratio,
        ;
        assert(0 <= amount * 10_000 <= product <= amount * 10_000 + 9_999);
        assert(prize_pool * (sum + ratio as nat) == prize_pool * sum + prize_pool * ratio)
            by (nonlinear_arith);
        if amount > 0 {
            let payment = Effect::<DataKey, Event>::Transfer {
                token,
                from: contract,
                to: winners[n - 1],
                amount: amount as i128,
            };
            assert(before.push(payment).drop_last() =~= before);
        }
    } else {
        assert(prize_pool * bps::sum(ratios_bps.take(0)) == 0) by (nonlinear_arith)
            requires
                bps::sum(ratios_bps.take(0)) == 0,
        ;
    }
}

/// Finalising a round never pays out more than its prize pool, and with a
/// winner for each ratio all of it but what rounding leaves, less than one
/// unit for each ratio.
pub proof fn law_payouts_share_pool(
    s: WeeklyTournamentState,
    now: u64,
    contract: Address,
    admin: Address,
    winners: Seq<Address>,
)
    requires
        s.books_balance(),
        s.finalise_result(now, admin, winners) is Ok,
        s.rounds[s.current_round->0].prize_pool >= 0,
    ensures
        0 <= paid_from(contract, s.finalise_asks(now, contract, admin, winners))
            <= s.rounds[s.current_round->0].prize_pool,
        winners.len() >= s.config->0.prize_ratios_bps.len() ==> paid_from(
            contract,
            s.finalise_asks(now, contract, admin, winners),
        ) > s.rounds[s.current_round->0].prize_pool - s.config->0.prize_ratios_bps.len(),
        s.finalise_result(now, admin, winners) == Ok::<i128, Error>(
            s.rounds[s.current_round->0].prize_pool,
        ),
{
    let meta = s.rounds[s.current_round->0];
    let round_id = s.current_round->0;
    let config = s.config->0;
    let n = s.places(winners);
    let paid = payouts(
        config.token,
        contract,
        meta.prize_pool,
        config.prize_ratios_bps,
        winners,
        s.payable(meta, winners),
    );
    let close = seq![
        Effect::Store(DataKey::RoundMeta(round_id)),
        Effect::Publish(
            Event::RoundFinalised(RoundFinalised { round_id, total_prize: meta.prize_pool }),
        ),
    ];
    lemma_places_bound(meta.prize_pool, config.prize_ratios_bps, n);
    lemma_payouts_within(
        config.token,
        contract,
        meta.prize_pool,
        config.prize_ratios_bps,
        winners,
        n,
    );
    bps::lemma_sum_take(config.prize_ratios_bps, n as int);
    assert(meta.prize_pool * bps::sum(config.prize_ratios_bps.take(n as int)) <= meta.prize_pool
        * 10_000) by (nonlinear_arith)
        requires
            meta.prize_pool >= 0,
            bps::sum(config.prize_ratios_bps.take(n as int)) <= 10_000,
    ;
    if winners.len() >= config.prize_ratios_bps.len() {
        assert(config.prize_ratios_bps.take(n as int) =~= config.prize_ratios_bps);
    }
    lemma_paid_from_add(contract, s.auth_asks(admin), paid + close);
    lemma_paid_from_add(contract, paid, close);
    assert(paid_from(contract, s.auth_asks(admin)) == 0) by {
        reveal_with_fuel(paid_from, 2);
    }
    assert(paid_from(contract, close) == 0) by {
        reveal_with_fuel(paid_from, 3);
    }
}

/// From an empty ledger, the books balance whatever calls are made.
pub proof fn law_books_balance(calls: Seq<Call>)
    ensures
        WeeklyTournamentState::empty().run(calls).books_balance(),
    decreases calls.len(),
{
    if calls.len() > 0 {
        law_books_balance(calls.drop_last());
        let s = WeeklyTournamentState::empty().run(calls.drop_last());
        if let Call::Enter { player } = calls.last() {
            if s.enter_result(player) is Ok {
                let count = s.rounds[s.current_round->0].participant_count;
                let fee = s.config->0.entry_fee;
                assert(fee * (count + 1) == fee * count + fee) by (nonlinear_arith);
            }
        }
        if let Call::OpenRound { now, admin, round_id, duration_secs } = calls.last() {
            assert(s.config->0.entry_fee * 0 == 0);
        }
    }
}

/// A player enters a round at most once: whatever calls follow, as long as the
/// round is the current one, entering again is refused.
pub proof fn law_entered_once(s: WeeklyTournamentState, player: Address, calls: Seq<Call>)
    requires
        s.enter_result(player) is Ok,
    ensures
        s.after_enter(player).run(calls).player_entered.contains_key((s.current_round->0, player)),
        s.after_enter(player).run(calls).current_round == s.current_round ==> s.after_enter(
            player,
        ).run(calls).enter_result(player) == Err::<(), Error>(Error::AlreadyEntered),
    decreases calls.len(),
{
    law_set_up_once(s.after_enter(player), calls, s.config->0);
    if calls.len() > 0 {
        law_entered_once(s, player, calls.drop_last());
    }
}

/// A posted score counts if it is the best so far, and no call makes a
/// player's score in a round worse.
pub proof fn law_best_score_counts(
    s: WeeklyTournamentState,
    caller: Address,
    player: Address,
    score: u64,
    calls: Seq<Call>,
    round_id: u32,
    other: Address,
)
    ensures
        s.post_result(caller, player) is Ok ==> s.after_post(caller, player, score).score(
            s.current_round->0,
            player,
        ) == if s.score(s.current_round->0, player) < score {
            score
        } else {
            s.score(s.current_round->0, player)
        },
        s.run(calls).score(round_id, other) >= s.score(round_id, other),
    decreases calls.len(),
{
    if calls.len() > 0 {
        law_best_score_counts(s, caller, player, score, calls.drop_last(), round_id, other);
    }
}

/// There is one round at a time: the next one opens only when the current one
/// is finalised.
pub proof fn law_one_round_at_a_time(s: WeeklyTournamentState, admin: Address)
    requires
        s.current_round is Some,
        s.rounds.contains_key(s.current_round->0),
        s.admin_result(admin) is Ok,
    ensures
        s.open_result(admin) == if s.rounds[s.current_round->0].finalised {
            Ok::<(), Error>(())
        } else {
            Err(Error::RoundAlreadyOpen)
        },
{
}

/// A round is finalised, and its prizes are paid, only at its deadline or
/// later. Before that the call is refused and no token moves.
pub proof fn law_paid_after_deadline(
    s: WeeklyTournamentState,
    now: u64,
    contract: Address,
    admin: Address,
    winners: Seq<Address>,
)
    ensures
        s.finalise_result(now, admin, winners) is Ok ==> now
            >= s.rounds[s.current_round->0].end_ts,
        s.admin_result(admin) is Ok && s.current_round is Some && s.rounds.contains_key(
            s.current_round->0,
        ) && now < s.rounds[s.current_round->0].end_ts ==> {
            &&& s.finalise_result(now, admin, winners) == Err::<i128, Error>(Error::RoundNotEnded)
            &&& s.after_finalise(now, admin, winners) == s
            &&& s.finalise_asks(now, contract, admin, winners) == seq![
                Effect::<DataKey, Event>::RequireAuth(admin),
            ]
        },
{
    if now < s.rounds[s.current_round->0].end_ts && s.admin_result(admin) is Ok {
        assert(s.finalise_asks(now, contract, admin, winners) =~= s.auth_asks(admin));
    }
}

/// The prizes of a round are paid once: after a round is finalised, finalising
/// is refused until another round is opened.
pub proof fn law_finalised_once(
    s: WeeklyTournamentState,
    now: u64,
    admin: Address,
    winners: Seq<Address>,
    calls: Seq<Call>,
    later: u64,
    again: Seq<Address>,
)
    requires
        s.finalise_result(now, admin, winners) is Ok,
        s.after_finalise(now, admin, winners).rounds_opened(calls) == 0,
    ensures
        s.after_finalise(now, admin, winners).run(calls).current_round == s.current_round,
        s.after_finalise(now, admin, winners).run(calls).finalise_result(later, admin, again)
            == Err::<i128, Error>(Error::RoundNotEnded),
    decreases calls.len(),
{
    law_set_up_once(s.after_finalise(now, admin, winners), calls, s.config->0);
    if calls.len() > 0 {
        law_finalised_once(s, now, admin, winners, calls.drop_last(), later, again);
    }
}

/// A player enters, and pays the fee, only with their own authorisation.
pub proof fn law_player_authorises(s: WeeklyTournamentState, contract: Address, player: Address)
    requires
        s.may_enter(player) is Ok,
    ensures
        s.enter_asks(contract, player)[0] == Effect::<DataKey, Event>::RequireAuth(player),
{
}

/// Before anything is called the ledger holds nothing.
pub proof fn law_starts_empty()
    ensures
        WeeklyTournamentState::empty().config is None,
        WeeklyTournamentState::empty().current_round is None,
        WeeklyTournamentState::empty().rounds == Map::<u32, RoundMeta>::empty(),
        WeeklyTournamentState::empty().player_score == Map::<(u32, Address), u64>::empty(),
        WeeklyTournamentState::empty().player_entered == Map::<(u32, Address), bool>::empty(),
{
}

/// Without an admin nobody is asked and everybody is refused. Otherwise the
/// caller is asked for, the admin is let through, and all others are refused.
pub proof fn law_admin_is_let_through(s: WeeklyTournamentState, caller: Address)
    ensures
        s.config is None ==> s.admin_result(caller) == Err::<(), Error>(Error::NotInitialized)
            && s.auth_asks(caller) == Seq::<Effect<DataKey, Event>>::empty(),
        s.config is Some ==> s.auth_asks(caller) =~= seq![Effect::RequireAuth(caller)],
        s.config is Some && caller == s.config->0.admin ==> s.admin_result(caller) == Ok::<
            (),
            Error,
        >(()),
        s.config is Some && caller != s.config->0.admin ==> s.admin_result(caller) == Err::<
            (),
            Error,
        >(Error::NotAuthorized),
{
}

/// A contract that is not set up yet is set up as asked if the policy is valid: what `init`
/// was given is written, nothing else changes, and the admin is asked for.
/// Otherwise nothing is written.
pub proof fn law_init_sets_up(s: WeeklyTournamentState, config: ConfigState)
    ensures
        s.config is None && bps::sum(config.prize_ratios_bps) == 10_000 ==> {
            &&& s.init_result(config) == Ok::<(), Error>(())
            &&& s.after_init(config) == (WeeklyTournamentState { config: Some(config), ..s })
            &&& s.init_asks(config) =~= seq![
                Effect::RequireAuth(config.admin),
                Effect::Store(DataKey::Admin),
                Effect::Store(DataKey::Token),
                Effect::Store(DataKey::EntryFee),
                Effect::Store(DataKey::PrizeRatiosBps),
            ]
        },
        s.config is Some ==> {
            &&& s.init_result(config) == Err::<(), Error>(Error::AlreadyInitialized)
            &&& s.after_init(config) == s
            &&& s.init_asks(config) =~= Seq::<Effect<DataKey, Event>>::empty()
        },
        s.config is None && !(bps::sum(config.prize_ratios_bps) == 10_000) ==> {
            &&& s.init_result(config) == Err::<(), Error>(Error::InvalidConfig)
            &&& s.after_init(config) == s
            &&& s.init_asks(config) =~= seq![Effect::RequireAuth(config.admin)]
        },
{
}

/// The admin may open a round where none was opened yet, or where the current
/// one is finalised: the new round becomes the current one, with nothing paid
/// in and nobody taking part, and ends after its duration.
pub proof fn law_round_can_be_opened(
    s: WeeklyTournamentState,
    now: u64,
    caller: Address,
    round_id: u32,
    duration_secs: u64,
    end_ts: u64,
)
    requires
        s.config is Some,
        caller == s.config->0.admin,
        s.current_round is Some ==> s.rounds.contains_key(s.current_round->0)
            && s.rounds[s.current_round->0].finalised,
        now + duration_secs <= u64::MAX ==> end_ts == now + duration_secs,
        now + duration_secs > u64::MAX ==> end_ts == u64::MAX,
    ensures
        s.open_result(caller) == Ok::<(), Error>(()),
        s.after_open(now, caller, round_id, duration_secs) == (WeeklyTournamentState {
            current_round: Some(round_id),
            rounds: s.rounds.insert(
                round_id,
                RoundMeta {
                    round_id,
                    start_ts: now,
                    end_ts,
                    prize_pool: 0,
                    participant_count: 0,
                    finalised: false,
                },
            ),
            ..s
        }),
        s.open_asks(now, caller, round_id, duration_secs) =~= seq![
            Effect::RequireAuth(caller),
            Effect::Store(DataKey::CurrentRound),
            Effect::Store(DataKey::RoundMeta(round_id)),
            Effect::ExtendTtl {
                key: DataKey::RoundMeta(round_id),
                threshold: 518_400,
                extend_to: 518_400,
            },
            Effect::Publish(Event::RoundOpened(RoundOpened { round_id, end_ts })),
        ],
{
}

/// The admin is refused a new round only while the current one runs or its
/// record is missing.
pub proof fn law_open_is_refused_for_a_reason(
    s: WeeklyTournamentState,
    now: u64,
    caller: Address,
    round_id: u32,
    duration_secs: u64,
)
    requires
        s.config is Some,
        caller == s.config->0.admin,
    ensures
        s.current_round is Some && !s.rounds.contains_key(s.current_round->0) ==> s.open_result(
            caller,
        ) == Err::<(), Error>(Error::NoActiveRound),
        s.current_round is Some && s.rounds.contains_key(s.current_round->0)
            && !s.rounds[s.current_round->0].finalised ==> s.open_result(caller) == Err::<
            (),
            Error,
        >(Error::RoundAlreadyOpen),
        s.open_result(caller) is Err ==> s.after_open(now, caller, round_id, duration_secs) == s
            && s.open_asks(now, caller, round_id, duration_secs) =~= seq![
            Effect::RequireAuth(caller),
        ],
{
}

/// Everybody who is not in the current round yet may enter it: they pay the
/// fee, it goes into the prize pool, and they are counted. It fails only if
/// the pool grows too large.
pub proof fn law_newcomer_can_enter(
    s: WeeklyTournamentState,
    contract: Address,
    player: Address,
)
    requires
        s.config is Some,
        s.current_round is Some,
        s.rounds.contains_key(s.current_round->0),
        !s.player_entered.contains_key((s.current_round->0, player)),
    ensures
        ({
            let round_id = s.current_round->0;
            let meta = s.rounds[round_id];
            let fee = s.config->0.entry_fee;
            let payment = Effect::<DataKey, Event>::Transfer {
                token: s.config->0.token,
                from: player,
                to: contract,
                amount: fee,
            };
            &&& i128::MIN <= meta.prize_pool + fee <= i128::MAX ==> {
                &&& s.enter_result(player) == Ok::<(), Error>(())
                &&& s.after_enter(player) == (WeeklyTournamentState {
                    rounds: s.rounds.insert(
                        round_id,
                        RoundMeta {
                            round_id: meta.round_id,
                            start_ts: meta.start_ts,
                            end_ts: meta.end_ts,
                            prize_pool: (meta.prize_pool + fee) as i128,
                            participant_count: if meta.participant_count < u32::MAX {
                                (meta.participant_count + 1) as u32
                            } else {
                                u32::MAX
                            },
                            finalised: meta.finalised,
                        },
                    ),
                    player_entered: s.player_entered.insert((round_id, player), true),
                    ..s
                })
                &&& s.enter_asks(contract, player) =~= seq![
                    Effect::RequireAuth(player),
                    payment,
                    Effect::Store(DataKey::PlayerEntered(round_id, player)),
                    Effect::ExtendTtl {
                        key: DataKey::PlayerEntered(round_id, player),
                        threshold: 518_400,
                        extend_to: 518_400,
                    },
                    Effect::Store(DataKey::RoundMeta(round_id)),
                    Effect::Publish(
                        Event::PlayerEntered(PlayerEntered { round_id, player, fee_paid: fee }),
                    ),
                ]
                &&& moved(s.enter_asks(contract, player), s.config->0.token, player, contract)
                    == fee
            }
            &&& !(i128::MIN <= meta.prize_pool + fee <= i128::MAX) ==> {
                &&& s.enter_result(player) == Err::<(), Error>(Error::Overflow)
                &&& s.enter_asks(contract, player) =~= seq![Effect::RequireAuth(player), payment]
            }
        }),
{
    reveal_with_fuel(moved, 7);
}

/// Nobody enters where there is no contract or no round, or twice. Then nothing
/// is paid.
pub proof fn law_enter_is_refused_for_a_reason(
    s: WeeklyTournamentState,
    contract: Address,
    player: Address,
)
    ensures
        s.config is None ==> s.enter_result(player) == Err::<(), Error>(Error::NotInitialized)
            && s.enter_asks(contract, player) =~= Seq::<Effect<DataKey, Event>>::empty(),
        s.config is Some && s.current_round is None ==> s.enter_result(player) == Err::<(), Error>(
            Error::NoActiveRound,
        ) && s.enter_asks(contract, player) =~= seq![Effect::RequireAuth(player)],
        s.config is Some && s.current_round is Some && s.player_entered.contains_key(
            (s.current_round->0, player),
        ) ==> s.enter_result(player) == Err::<(), Error>(Error::AlreadyEntered) && s.enter_asks(
            contract,
            player,
        ) =~= seq![Effect::RequireAuth(player)],
        s.enter_result(player) is Err ==> s.after_enter(player) == s,
{
}

/// The admin may post any score of anybody who has entered the current round:
/// the better of it and `had`, their score so far, is written for them.
pub proof fn law_score_can_be_posted(
    s: WeeklyTournamentState,
    caller: Address,
    player: Address,
    score: u64,
    had: u64,
    best: u64,
)
    requires
        s.config is Some,
        caller == s.config->0.admin,
        s.current_round is Some,
        s.player_entered.contains_key((s.current_round->0, player)),
        s.player_score.contains_key((s.current_round->0, player)) ==> had == s.player_score[(
            s.current_round->0,
            player,
        )],
        !s.player_score.contains_key((s.current_round->0, player)) ==> had == 0,
        best >= had,
        best >= score,
        best == had || best == score,
    ensures
        s.post_result(caller, player) == Ok::<(), Error>(()),
        s.after_post(caller, player, score) == (WeeklyTournamentState {
            player_score: s.player_score.insert((s.current_round->0, player), best),
            ..s
        }),
        s.post_asks(caller, player, score) =~= seq![
            Effect::RequireAuth(caller),
            Effect::Store(DataKey::PlayerScore(s.current_round->0, player)),
            Effect::ExtendTtl {
                key: DataKey::PlayerScore(s.current_round->0, player),
                threshold: 518_400,
                extend_to: 518_400,
            },
            Effect::Publish(
                Event::ScorePosted(
                    ScorePosted { round_id: s.current_round->0, player, score: best },
                ),
            ),
        ],
{
}

/// The admin is refused a score only if there is no round or the player is not
/// in it. A score that was never written is 0.
pub proof fn law_post_is_refused_for_a_reason(
    s: WeeklyTournamentState,
    caller: Address,
    player: Address,
    score: u64,
    round_id: u32,
)
    ensures
        s.config is Some && caller == s.config->0.admin && s.current_round is None
            ==> s.post_result(caller, player) == Err::<(), Error>(Error::NoActiveRound),
        s.config is Some && caller == s.config->0.admin && s.current_round is Some
            && !s.player_entered.contains_key((s.current_round->0, player)) ==> s.post_result(
            caller,
            player,
        ) == Err::<(), Error>(Error::NotEntered),
        s.post_result(caller, player) is Err ==> s.after_post(caller, player, score) == s,
        s.post_result(caller, player) is Err && s.config is Some ==> s.post_asks(
            caller,
            player,
            score,
        ) =~= seq![Effect::RequireAuth(caller)],
        s.player_score.contains_key((round_id, player)) ==> s.score(round_id, player)
            == s.player_score[(round_id, player)],
        !s.player_score.contains_key((round_id, player)) ==> s.score(round_id, player) == 0,
{
}

proof fn lemma_all_paid(prize_pool: i128, ratios_bps: Seq<u32>, n: nat)
    requires
        forall|i: int|
            0 <= i < n ==> i128::MIN <= prize_pool * (#[trigger] ratios_bps[i]) <= i128::MAX,
    ensures
        places_paid(prize_pool, ratios_bps, n) == n,
    decreases n,
{
    if n > 0 {
        lemma_all_paid(prize_pool, ratios_bps, (n - 1) as nat);
        assert(share_fits(prize_pool, ratios_bps[n - 1]));
    }
}

/// The payments go place by place. Each place is paid, by the contract, its
/// ratio of the prize pool in whole units, and a place whose share is none is
/// passed over.
pub proof fn law_places_are_paid_in_order(
    token: Address,
    contract: Address,
    prize_pool: i128,
    ratios_bps: Seq<u32>,
    winners: Seq<Address>,
    n: nat,
)
    ensures
        payouts(token, contract, prize_pool, ratios_bps, winners, 0) == Seq::<
            Effect<DataKey, Event>,
        >::empty(),
        ({
            let before = payouts(token, contract, prize_pool, ratios_bps, winners, n);
            let amount = prize_pool * ratios_bps[n as int] / 10_000;
            let all = payouts(token, contract, prize_pool, ratios_bps, winners, n + 1);
            &&& amount > 0 ==> all == before.push(
                Effect::Transfer {
                    token,
                    from: contract,
                    to: winners[n as int],
                    amount: amount as i128,
                },
            )
            &&& amount <= 0 ==> all == before
        }),
{
}

/// From its deadline on, at whatever time, a round that is not finalised can
/// be: the call succeeds with the prize pool, pays the first `n` places, one
/// for each winner who has a ratio, and marks the round as finalised.
pub proof fn law_ended_round_can_be_finalised(
    s: WeeklyTournamentState,
    now: u64,
    contract: Address,
    caller: Address,
    winners: Seq<Address>,
    n: nat,
)
    requires
        s.config is Some,
        caller == s.config->0.admin,
        s.current_round is Some,
        s.rounds.contains_key(s.current_round->0),
        !s.rounds[s.current_round->0].finalised,
        now >= s.rounds[s.current_round->0].end_ts,
        n <= winners.len(),
        n <= s.config->0.prize_ratios_bps.len(),
        n == winners.len() || n == s.config->0.prize_ratios_bps.len(),
        forall|i: int|
            0 <= i < n ==> i128::MIN <= s.rounds[s.current_round->0].prize_pool * (
            #[trigger] s.config->0.prize_ratios_bps[i]) <= i128::MAX,
    ensures
        s.finalise_result(now, caller, winners) == Ok::<i128, Error>(
            s.rounds[s.current_round->0].prize_pool,
        ),
        s.after_finalise(now, caller, winners) == (WeeklyTournamentState {
            rounds: s.rounds.insert(
                s.current_round->0,
                RoundMeta { finalised: true, ..s.rounds[s.current_round->0] },
            ),
            ..s
        }),
        s.finalise_asks(now, contract, caller, winners) =~= seq![Effect::RequireAuth(caller)]
            + payouts(
            s.config->0.token,
            contract,
            s.rounds[s.current_round->0].prize_pool,
            s.config->0.prize_ratios_bps,
            winners,
            n,
        ) + seq![
            Effect::Store(DataKey::RoundMeta(s.current_round->0)),
            Effect::Publish(
                Event::RoundFinalised(
                    RoundFinalised {
                        round_id: s.current_round->0,
                        total_prize: s.rounds[s.current_round->0].prize_pool,
                    },
                ),
            ),
        ],
{
    lemma_all_paid(s.rounds[s.current_round->0].prize_pool, s.config->0.prize_ratios_bps, n);
    assert(s.places(winners) == n);
}

/// The admin is refused to finalise only if there is no round on record, it is
/// finalised, its deadline lies ahead, or the share of some place cannot be
/// computed. Then the round stays as it is.
pub proof fn law_finalise_is_refused_for_a_reason(
    s: WeeklyTournamentState,
    now: u64,
    caller: Address,
    winners: Seq<Address>,
    place: int,
)
    requires
        s.config is Some,
        caller == s.config->0.admin,
    ensures
        s.current_round is None || !s.rounds.contains_key(s.current_round->0)
            ==> s.finalise_result(now, caller, winners) == Err::<i128, Error>(Error::NoActiveRound),
        s.current_round is Some && s.rounds.contains_key(s.current_round->0) && (
        s.rounds[s.current_round->0].finalised || now < s.rounds[s.current_round->0].end_ts)
            ==> s.finalise_result(now, caller, winners) == Err::<i128, Error>(Error::RoundNotEnded),
        s.current_round is Some && s.rounds.contains_key(s.current_round->0)
            && !s.rounds[s.current_round->0].finalised && now
            >= s.rounds[s.current_round->0].end_ts && 0 <= place < winners.len() && place
            < s.config->0.prize_ratios_bps.len() && !(i128::MIN
            <= s.rounds[s.current_round->0].prize_pool * s.config->0.prize_ratios_bps[place]
            <= i128::MAX) ==> s.finalise_result(now, caller, winners) == Err::<i128, Error>(
            Error::Overflow,
        ),
        s.finalise_result(now, caller, winners) is Err ==> s.after_finalise(now, caller, winners)
            == s,
{
    if s.may_finalise(now, caller) is Ok && 0 <= place < s.places(winners) && !share_fits(
        s.rounds[s.current_round->0].prize_pool,
        s.config->0.prize_ratios_bps[place],
    ) {
        lemma_unpaid(
            s.rounds[s.current_round->0].prize_pool,
            s.config->0.prize_ratios_bps,
            s.places(winners),
            place,
        );
    }
}

proof fn lemma_unpaid(prize_pool: i128, ratios_bps: Seq<u32>, n: nat, place: int)
    requires
        0 <= place < n,
        !share_fits(prize_pool, ratios_bps[place]),
    ensures
        places_paid(prize_pool, ratios_bps, n) < n,
    decreases n,
{
    lemma_places_bound(prize_pool, ratios_bps, (n - 1) as nat);
    if place < n - 1 {
        lemma_unpaid(prize_pool, ratios_bps, (n - 1) as nat, place);
    }
}

proof fn lemma_moved_by_payouts(
    token: Address,
    contract: Address,
    prize_pool: i128,
    ratios_bps: Seq<u32>,
    winners: Seq<Address>,
    n: nat,
    to: Address,
)
    requires
        n <= winners.len(),
        winners.no_duplicates(),
        prize_pool >= 0,
        forall|i: int|
            0 <= i < n ==> i128::MIN <= prize_pool * (#[trigger] ratios_bps[i]) <= i128::MAX,
    ensures
        forall|i: int|
            0 <= i < n && (#[trigger] winners[i]) == to ==> moved(
                payouts(token, contract, prize_pool, ratios_bps, winners, n),
                token,
                contract,
                to,
            ) == prize_pool * ratios_bps[i] / 10_000,
        (forall|i: int| 0 <= i < n ==> (#[trigger] winners[i]) != to) ==> moved(
            payouts(token, contract, prize_pool, ratios_bps, winners, n),
            token,
            contract,
            to,
        ) == 0,
    decreases n,
{
    if n > 0 {
        let m = (n - 1) as nat;
        lemma_moved_by_payouts(token, contract, prize_pool, ratios_bps, winners, m, to);
        let before = payouts(token, contract, prize_pool, ratios_bps, winners, m);
        let product = prize_pool * ratios_bps[m as int];
        assert(product >= 0) by (nonlinear_arith)
            requires
                prize_pool >= 0,
                product == prize_pool * ratios_bps[m as int],
        ;
        let amount = share(prize_pool, ratios_bps[m as int]);
        if amount > 0 {
            let payment = Effect::<DataKey, Event>::Transfer {
                token,
                from: contract,
                to: winners[m as int],
                amount: amount as i128,
            };
            assert(before.push(payment).drop_last() =~= before);
        }
        if winners[m as int] == to {
            assert forall|i: int| 0 <= i < m implies (#[trigger] winners[i]) != to by {
                assert(winners[i] != winners[m as int]);
            }
        }
    }
}

/// When a round is finalised with winners who are all different, each winner
/// who has a ratio receives exactly that ratio of the prize pool, in whole
/// units, and nobody else receives anything.
pub proof fn law_each_winner_receives_their_share(
    s: WeeklyTournamentState,
    now: u64,
    contract: Address,
    caller: Address,
    winners: Seq<Address>,
    place: int,
    other: Address,
)
    requires
        s.finalise_result(now, caller, winners) is Ok,
        s.rounds[s.current_round->0].prize_pool >= 0,
        winners.no_duplicates(),
        !winners.contains(other),
    ensures
        0 <= place < winners.len() && place < s.config->0.prize_ratios_bps.len() ==> moved(
            s.finalise_asks(now, contract, caller, winners),
            s.config->0.token,
            contract,
            winners[place],
        ) == s.rounds[s.current_round->0].prize_pool * s.config->0.prize_ratios_bps[place]
            / 10_000,
        s.config->0.prize_ratios_bps.len() <= place < winners.len() ==> moved(
            s.finalise_asks(now, contract, caller, winners),
            s.config->0.token,
            contract,
            winners[place],
        ) == 0,
        moved(
            s.finalise_asks(now, contract, caller, winners),
            s.config->0.token,
            contract,
            other,
        ) == 0,
{
    let pool = s.rounds[s.current_round->0].prize_pool;
    let ratios = s.config->0.prize_ratios_bps;
    let token = s.config->0.token;
    let n = s.places(winners);
    let round_id = s.current_round->0;
    assert forall|i: int| 0 <= i < n implies i128::MIN <= pool * (#[trigger] ratios[i])
        <= i128::MAX by {
        if !share_fits(pool, ratios[i]) {
            lemma_unpaid(pool, ratios, n, i);
        }
    }
    law_ended_round_can_be_finalised(s, now, contract, caller, winners, n);
    let ask = seq![Effect::<DataKey, Event>::RequireAuth(caller)];
    let paid = payouts(token, contract, pool, ratios, winners, n);
    let close = seq![
        Effect::<DataKey, Event>::Store(DataKey::RoundMeta(round_id)),
        Effect::Publish(Event::RoundFinalised(RoundFinalised { round_id, total_prize: pool })),
    ];
    assert(s.finalise_asks(now, contract, caller, winners) =~= ask + paid + close);
    let winner = winners[place];
    lemma_moved_add(ask + paid, close, token, contract, winner);
    lemma_moved_add(ask, paid, token, contract, winner);
    lemma_moved_by_payouts(token, contract, pool, ratios, winners, n, winner);
    lemma_moved_add(ask + paid, close, token, contract, other);
    lemma_moved_add(ask, paid, token, contract, other);
    lemma_moved_by_payouts(token, contract, pool, ratios, winners, n, other);
    assert forall|i: int| 0 <= i < n implies (#[trigger] winners[i]) != other by {
        assert(winners.contains(winners[i]));
    }
    if ratios.len() <= place < winners.len() {
        assert forall|i: int| 0 <= i < n implies (#[trigger] winners[i]) != winner by {}
    }
    reveal_with_fuel(moved, 3);
}

/// Where the admin is refused to finalise, nothing is asked for but their
/// authorisation, unless the share of some place cannot be computed: then the
/// places before the first such place have been asked for.
pub proof fn law_refused_finalise_asks(
    s: WeeklyTournamentState,
    now: u64,
    contract: Address,
    caller: Address,
    winners: Seq<Address>,
    first: nat,
)
    requires
        s.config is Some,
        caller == s.config->0.admin,
    ensures
        s.current_round is None || !s.rounds.contains_key(s.current_round->0)
            || s.rounds[s.current_round->0].finalised || now < s.rounds[s.current_round->0].end_ts
            ==> s.finalise_asks(now, contract, caller, winners) =~= seq![
            Effect::RequireAuth(caller),
        ],
        s.current_round is Some && s.rounds.contains_key(s.current_round->0)
            && !s.rounds[s.current_round->0].finalised && now
            >= s.rounds[s.current_round->0].end_ts && first < winners.len() && first
            < s.config->0.prize_ratios_bps.len() && !(i128::MIN
            <= s.rounds[s.current_round->0].prize_pool * s.config->0.prize_ratios_bps[first as int]
            <= i128::MAX) && (forall|i: int|
            0 <= i < first ==> i128::MIN <= s.rounds[s.current_round->0].prize_pool * (
            #[trigger] s.config->0.prize_ratios_bps[i]) <= i128::MAX) ==> s.finalise_asks(
            now,
            contract,
            caller,
            winners,
        ) =~= seq![Effect::RequireAuth(caller)] + payouts(
            s.config->0.token,
            contract,
            s.rounds[s.current_round->0].prize_pool,
            s.config->0.prize_ratios_bps,
            winners,
            first,
        ),
{
    let pool = s.rounds[s.current_round->0].prize_pool;
    let ratios = s.config->0.prize_ratios_bps;
    if s.may_finalise(now, caller) is Ok && first < s.places(winners) && !share_fits(
        pool,
        ratios[first as int],
    ) && (forall|i: int|
        0 <= i < first ==> i128::MIN <= pool * (#[trigger] ratios[i]) <= i128::MAX) {
        lemma_all_paid(pool, ratios, first);
        lemma_places_paid(pool, ratios, s.places(winners), first);
    }
}

} // verus!
