//! Insurance against losing streaks. A player who loses often enough in a row
//! claims a reimbursement from the contract's pool.
//!
//! The admin calls `init` with the token and the policy. Game contracts report
//! each round through `record_loss` and `record_win`, and a player whose streak
//! qualifies calls `claim_reimbursement`. A win ends the streak, and the next
//! one qualifies afresh.

use vstd::prelude::*;

use crate::address::{Address, Key};
use crate::env::{bumped, moved, Effect, Env};
use crate::table::Table;

verus! {

#[derive(Copy, Clone, Debug, Eq, PartialEq, PartialOrd, Ord)]
pub enum Error {
    AlreadyInitialized,
    NotInitialized,
    NotAuthorized,
    StreakNotQualified,
    AlreadyClaimed,
    InsufficientPool,
    InvalidAmount,
    Overflow,
}

impl Error {
    /// The number by which callers of the contract know the error.
    pub fn code(self) -> (code: u32)
        ensures
            code == match self {
                Error::AlreadyInitialized => 1u32,
                Error::NotInitialized => 2,
                Error::NotAuthorized => 3,
                Error::StreakNotQualified => 4,
                Error::AlreadyClaimed => 5,
                Error::InsufficientPool => 6,
                Error::InvalidAmount => 7,
                Error::Overflow => 8,
            },
    {
        match self {
            Error::AlreadyInitialized => 1,
            Error::NotInitialized => 2,
            Error::NotAuthorized => 3,
            Error::StreakNotQualified => 4,
            Error::AlreadyClaimed => 5,
            Error::InsufficientPool => 6,
            Error::InvalidAmount => 7,
            Error::Overflow => 8,
        }
    }
}

/// The names of the contract's ledger entries.
#[derive(Clone, Copy, Debug, Eq, PartialEq)]
pub enum DataKey {
    Admin,
    Token,
    MinLossStreak,
    ReimbursementAmount,
    PlayerRecord(Address),
    TotalClaimsPaid,
}

#[derive(Clone, Copy, Debug, Eq, PartialEq)]
pub struct PlayerInsuranceRecord {
    pub consecutive_losses: u32,
    pub total_losses: u32,
    pub total_wins: u32,
    /// How long the current streak was when the player last claimed on it, 0
    /// if they have not.
    pub last_claim_streak_end: u32,
}

impl View for PlayerInsuranceRecord {
    type V = PlayerInsuranceRecord;

    open spec fn view(&self) -> PlayerInsuranceRecord {
        *self
    }
}

#[derive(Clone, Copy, Debug, Eq, PartialEq)]
pub struct LossRecorded {
    pub player: Address,
    pub consecutive_losses: u32,
}

#[derive(Clone, Copy, Debug, Eq, PartialEq)]
pub struct WinRecorded {
    pub player: Address,
}

#[derive(Clone, Copy, Debug, Eq, PartialEq)]
pub struct ReimbursementClaimed {
    pub player: Address,
    pub amount: i128,
    pub at_streak: u32,
}

#[derive(Clone, Copy, Debug, Eq, PartialEq)]
pub enum Event {
    LossRecorded(LossRecorded),
    WinRecorded(WinRecorded),
    ReimbursementClaimed(ReimbursementClaimed),
}

/// What `init` writes.
#[derive(Clone, Copy, Debug, Eq, PartialEq)]
pub struct Config {
    pub admin: Address,
    pub token: Address,
    /// How many losses in a row qualify for a claim.
    pub min_loss_streak: u32,
    /// What a claim pays, in token units.
    pub reimbursement_amount: i128,
}

/// The contract's ledger entries.
pub struct PlayerInsurance {
    pub config: Option<Config>,
    pub records: Table<Address, PlayerInsuranceRecord>,
    pub total_claims_paid: u32,
}

/// The contract's ledger entries as maps.
#[verifier::ext_equal]
pub struct PlayerInsuranceState {
    pub config: Option<Config>,
    pub records: Map<Address, PlayerInsuranceRecord>,
    pub total_claims_paid: u32,
}

impl View for PlayerInsurance {
    type V = PlayerInsuranceState;

    open spec fn view(&self) -> PlayerInsuranceState {
        PlayerInsuranceState {
            config: self.config,
            records: self.records@,
            total_claims_paid: self.total_claims_paid,
        }
    }
}

impl PlayerInsuranceState {
    /// The ledger before `init`.
    pub open spec fn empty() -> Self {
        PlayerInsuranceState { config: None, records: Map::empty(), total_claims_paid: 0 }
    }

    /// The request for an authorisation, once there is a contract to call.
    pub open spec fn auth_asks(self, address: Address) -> Seq<Effect<DataKey, Event>> {
        if self.config is Some {
            seq![Effect::RequireAuth(address)]
        } else {
            seq![]
        }
    }

    /// Only the admin may go on.
    pub open spec fn admin_result(self, caller: Address) -> Result<(), Error> {
        match self.config {
            None => Err(Error::NotInitialized),
            Some(config) => if caller == config.admin {
                Ok(())
            } else {
                Err(Error::NotAuthorized)
            },
        }
    }

    pub open spec fn init_result(self) -> Result<(), Error> {
        if self.config is Some {
            Err(Error::AlreadyInitialized)
        } else {
            Ok(())
        }
    }

    pub open spec fn after_init(self, config: Config) -> Self {
        if self.init_result() is Ok {
            PlayerInsuranceState { config: Some(config), ..self }
        } else {
            self
        }
    }

    pub open spec fn init_asks(self, admin: Address) -> Seq<Effect<DataKey, Event>> {
        if self.init_result() is Ok {
            seq![
                Effect::RequireAuth(admin),
                Effect::Store(DataKey::Admin),
                Effect::Store(DataKey::Token),
                Effect::Store(DataKey::MinLossStreak),
                Effect::Store(DataKey::ReimbursementAmount),
            ]
        } else {
            seq![]
        }
    }

    /// What is known of a player. A new player has neither lost nor won.
    pub open spec fn record(self, player: Address) -> PlayerInsuranceRecord {
        if self.records.contains_key(player) {
            self.records[player]
        } else {
            PlayerInsuranceRecord {
                consecutive_losses: 0,
                total_losses: 0,
                total_wins: 0,
                last_claim_streak_end: 0,
            }
        }
    }

    /// The streak with one more loss.
    pub open spec fn loss_result(self, caller: Address, player: Address) -> Result<u32, Error> {
        match self.admin_result(caller) {
            Err(e) => Err(e),
            Ok(_) => if self.record(player).consecutive_losses == u32::MAX {
                Err(Error::Overflow)
            } else {
                Ok((self.record(player).consecutive_losses + 1) as u32)
            },
        }
    }

    pub open spec fn after_loss(self, caller: Address, player: Address) -> Self {
        match self.loss_result(caller, player) {
            Ok(streak) => PlayerInsuranceState {
                records: self.records.insert(
                    player,
                    PlayerInsuranceRecord {
                        consecutive_losses: streak,
                        total_losses: self.record(player).total_losses.saturating_add(1),
                        ..self.record(player)
                    },
                ),
                ..self
            },
            Err(_) => self,
        }
    }

    pub open spec fn loss_asks(self, caller: Address, player: Address) -> Seq<
        Effect<DataKey, Event>,
    > {
        self.auth_asks(caller) + match self.loss_result(caller, player) {
            Ok(streak) => seq![
                Effect::Store(DataKey::PlayerRecord(player)),
                bumped(DataKey::PlayerRecord(player)),
                Effect::Publish(
                    Event::LossRecorded(LossRecorded { player, consecutive_losses: streak }),
                ),
            ],
            Err(_) => seq![],
        }
    }

    /// A win ends the streak. The next one has not been claimed on.
    pub open spec fn after_win(self, caller: Address, player: Address) -> Self {
        if self.admin_result(caller) is Ok {
            PlayerInsuranceState {
                records: self.records.insert(
                    player,
                    PlayerInsuranceRecord {
                        consecutive_losses: 0,
                        total_wins: self.record(player).total_wins.saturating_add(1),
                        last_claim_streak_end: 0,
                        ..self.record(player)
                    },
                ),
                ..self
            }
        } else {
            self
        }
    }

    pub open spec fn win_asks(self, caller: Address, player: Address) -> Seq<
        Effect<DataKey, Event>,
    > {
        self.auth_asks(caller) + if self.admin_result(caller) is Ok {
            seq![
                Effect::Store(DataKey::PlayerRecord(player)),
                bumped(DataKey::PlayerRecord(player)),
                Effect::Publish(Event::WinRecorded(WinRecorded { player })),
            ]
        } else {
            seq![]
        }
    }

    /// A streak that is long enough, and longer than it was when it was last
    /// claimed on, is paid.
    pub open spec fn claim_result(self, player: Address) -> Result<i128, Error> {
        if self.config is None {
            Err(Error::NotInitialized)
        } else if !self.records.contains_key(player) || self.records[player].consecutive_losses
            < self.config->0.min_loss_streak {
            Err(Error::StreakNotQualified)
        } else if self.records[player].consecutive_losses
            <= self.records[player].last_claim_streak_end {
            Err(Error::AlreadyClaimed)
        } else {
            Ok(self.config->0.reimbursement_amount)
        }
    }

    pub open spec fn after_claim(self, player: Address) -> Self {
        if self.claim_result(player) is Ok {
            PlayerInsuranceState {
                records: self.records.insert(
                    player,
                    PlayerInsuranceRecord {
                        last_claim_streak_end: self.records[player].consecutive_losses,
                        ..self.records[player]
                    },
                ),
                total_claims_paid: self.total_claims_paid.saturating_add(1),
                ..self
            }
        } else {
            self
        }
    }

    /// The money goes from the contract to the player, after the claim is noted.
    pub open spec fn claim_asks(self, contract: Address, player: Address) -> Seq<
        Effect<DataKey, Event>,
    > {
        self.auth_asks(player) + match self.claim_result(player) {
            Ok(amount) => seq![
                Effect::Store(DataKey::PlayerRecord(player)),
                bumped(DataKey::PlayerRecord(player)),
                Effect::Store(DataKey::TotalClaimsPaid),
                Effect::Transfer {
                    token: self.config->0.token,
                    from: contract,
                    to: player,
                    amount,
                },
                Effect::Publish(
                    Event::ReimbursementClaimed(
                        ReimbursementClaimed {
                            player,
                            amount,
                            at_streak: self.records[player].consecutive_losses,
                        },
                    ),
                ),
            ],
            Err(_) => seq![],
        }
    }
}

impl PlayerInsurance {
    /// The contract before `init`.
    pub fn new() -> (insurance: Self)
        ensures
            insurance@ == PlayerInsuranceState::empty(),
    {
        PlayerInsurance { config: None, records: Table::new(), total_claims_paid: 0 }
    }

    /// Asks for the caller's authorisation, and refuses anyone but the admin.
    pub fn require_admin(&self, env: &mut Env<DataKey, Event>, caller: Address) -> (r: Result<
        (),
        Error,
    >)
        ensures
            r == self@.admin_result(caller),
            final(env).after(*old(env), self@.auth_asks(caller)),
    {
        match &self.config {
            None => Err(Error::NotInitialized),
            Some(config) => {
                env.require_auth(caller);
                if caller.same(&config.admin) {
                    Ok(())
                } else {
                    Err(Error::NotAuthorized)
                }
            },
        }
    }

    pub fn init(
        &mut self,
        env: &mut Env<DataKey, Event>,
        admin: Address,
        token: Address,
        min_loss_streak: u32,
        reimbursement_amount: i128,
    ) -> (r: Result<(), Error>)
        ensures
            r is Err ==> final(self)@ == old(self)@,
            r == old(self)@.init_result(),
            final(self)@ == old(self)@.after_init(
                Config { admin, token, min_loss_streak, reimbursement_amount },
            ),
            final(env).after(*old(env), old(self)@.init_asks(admin)),
    {
        if self.config.is_some() {
            return Err(Error::AlreadyInitialized);
        }
        env.require_auth(admin);
        self.config = Some(Config { admin, token, min_loss_streak, reimbursement_amount });
        env.store(DataKey::Admin);
        env.store(DataKey::Token);
        env.store(DataKey::MinLossStreak);
        env.store(DataKey::ReimbursementAmount);
        Ok(())
    }

    /// What is known of a player.
    fn load(&self, player: &Address) -> (record: PlayerInsuranceRecord)
        ensures
            record == self@.record(*player),
    {
        match self.records.get(player) {
            Some(record) => *record,
            None => PlayerInsuranceRecord {
                consecutive_losses: 0,
                total_losses: 0,
                total_wins: 0,
                last_claim_streak_end: 0,
            },
        }
    }

    /// Notes that a player has lost, and returns the streak. Admin only.
    pub fn record_loss(
        &mut self,
        env: &mut Env<DataKey, Event>,
        caller: Address,
        player: Address,
    ) -> (r: Result<u32, Error>)
        ensures
            r is Err ==> final(self)@ == old(self)@,
            r == old(self)@.loss_result(caller, player),
            final(self)@ == old(self)@.after_loss(caller, player),
            final(env).after(*old(env), old(self)@.loss_asks(caller, player)),
    {
        if let Err(e) = self.require_admin(env, caller) {
            return Err(e);
        }
        let mut record: PlayerInsuranceRecord = self.load(&player);
        let streak: u32 = match record.consecutive_losses.checked_add(1) {
            Some(streak) => streak,
            None => {
                return Err(Error::Overflow);
            },
        };
        record.consecutive_losses = streak;
        record.total_losses = record.total_losses.saturating_add(1);
        self.records.set(player, record);
        env.store(DataKey::PlayerRecord(player));
        env.bump(DataKey::PlayerRecord(player));
        env.publish(Event::LossRecorded(LossRecorded { player, consecutive_losses: streak }));
        Ok(streak)
    }

    /// Notes that a player has won, which ends the streak. Admin only.
    pub fn record_win(
        &mut self,
        env: &mut Env<DataKey, Event>,
        caller: Address,
        player: Address,
    ) -> (r: Result<(), Error>)
        ensures
            r is Err ==> final(self)@ == old(self)@,
            r == old(self)@.admin_result(caller),
            final(self)@ == old(self)@.after_win(caller, player),
            final(env).after(*old(env), old(self)@.win_asks(caller, player)),
    {
        if let Err(e) = self.require_admin(env, caller) {
            return Err(e);
        }
        let mut record: PlayerInsuranceRecord = self.load(&player);
        record.consecutive_losses = 0;
        record.total_wins = record.total_wins.saturating_add(1);
        record.last_claim_streak_end = 0;
        self.records.set(player, record);
        env.store(DataKey::PlayerRecord(player));
        env.bump(DataKey::PlayerRecord(player));
        env.publish(Event::WinRecorded(WinRecorded { player }));
        Ok(())
    }

    /// A player whose streak is long enough claims the reimbursement.
    pub fn claim_reimbursement(&mut self, env: &mut Env<DataKey, Event>, player: Address) -> (r:
        Result<i128, Error>)
        ensures
            r is Err ==> final(self)@ == old(self)@,
            r == old(self)@.claim_result(player),
            final(self)@ == old(self)@.after_claim(player),
            final(env).after(*old(env), old(self)@.claim_asks(old(env).contract, player)),
    {
        let config: Config = match self.config {
            Some(config) => config,
            None => {
                return Err(Error::NotInitialized);
            },
        };
        env.require_auth(player);
        let amount: i128 = config.reimbursement_amount;
        let mut record: PlayerInsuranceRecord = match self.records.get(&player) {
            Some(record) => *record,
            None => {
                return Err(Error::StreakNotQualified);
            },
        };
        if record.consecutive_losses < config.min_loss_streak {
            return Err(Error::StreakNotQualified);
        }
        if record.last_claim_streak_end >= record.consecutive_losses {
            return Err(Error::AlreadyClaimed);
        }
        let at_streak: u32 = record.consecutive_losses;
        record.last_claim_streak_end = at_streak;
        self.records.set(player, record);
        env.store(DataKey::PlayerRecord(player));
        env.bump(DataKey::PlayerRecord(player));
        self.total_claims_paid = self.total_claims_paid.saturating_add(1);
        env.store(DataKey::TotalClaimsPaid);
        let contract: Address = env.contract;
        env.transfer(config.token, contract, player, amount);
        env.publish(
            Event::ReimbursementClaimed(ReimbursementClaimed { player, amount, at_streak }),
        );
        Ok(amount)
    }

    pub fn get_player_record(&self, player: Address) -> (r: Option<PlayerInsuranceRecord>)
        ensures
            r == if self@.records.contains_key(player) {
                Some(self@.records[player])
            } else {
                None
            },
    {
        match self.records.get(&player) {
            Some(record) => Some(*record),
            None => None,
        }
    }

    pub fn get_total_claims_paid(&self) -> (total: u32)
        ensures
            total == self@.total_claims_paid,
    {
        self.total_claims_paid
    }
}

/// One call that may change the contract's ledger entries.
pub enum Call {
    Init { config: Config },
    RecordLoss { caller: Address, player: Address },
    RecordWin { caller: Address, player: Address },
    ClaimReimbursement { player: Address },
}

impl PlayerInsuranceState {
    pub open spec fn step(self, call: Call) -> Self {
        match call {
            Call::Init { config } => self.after_init(config),
            Call::RecordLoss { caller, player } => self.after_loss(caller, player),
            Call::RecordWin { caller, player } => self.after_win(caller, player),
            Call::ClaimReimbursement { player } => self.after_claim(player),
        }
    }

    /// What becomes of the ledger when calls are made one after the other.
    pub open spec fn run(self, calls: Seq<Call>) -> Self
        decreases calls.len(),
    {
        if calls.len() == 0 {
            self
        } else {
            self.run(calls.drop_last()).step(calls.last())
        }
    }

    /// The admin whom the `init` among these calls set, if one succeeded.
    pub open spec fn admin_set(self, calls: Seq<Call>) -> Option<Address>
        decreases calls.len(),
    {
        if calls.len() == 0 {
            None
        } else {
            let before = self.admin_set(calls.drop_last());
            match calls.last() {
                Call::Init { config } => if self.run(calls.drop_last()).init_result() is Ok {
                    Some(config.admin)
                } else {
                    before
                },
                _ => before,
            }
        }
    }

    /// How many losses of a player these calls report since the last win.
    pub open spec fn streak(self, calls: Seq<Call>, who: Address) -> nat
        decreases calls.len(),
    {
        if calls.len() == 0 {
            0
        } else {
            let before = self.streak(calls.drop_last(), who);
            let s = self.run(calls.drop_last());
            match calls.last() {
                Call::RecordLoss { caller, player } => if player == who && s.loss_result(
                    caller,
                    player,
                ) is Ok {
                    before + 1
                } else {
                    before
                },
                Call::RecordWin { caller, player } => if player == who && s.admin_result(
                    caller,
                ) is Ok {
                    0
                } else {
                    before
                },
                _ => before,
            }
        }
    }

    /// How many losses of a player these calls report.
    pub open spec fn losses(self, calls: Seq<Call>, who: Address) -> nat
        decreases calls.len(),
    {
        if calls.len() == 0 {
            0
        } else {
            let before = self.losses(calls.drop_last(), who);
            match calls.last() {
                Call::RecordLoss { caller, player } => if player == who && self.run(
                    calls.drop_last(),
                ).loss_result(caller, player) is Ok {
                    before + 1
                } else {
                    before
                },
                _ => before,
            }
        }
    }

    /// How many reimbursements these calls pay to a player.
    pub open spec fn claims_of(self, calls: Seq<Call>, who: Address) -> nat
        decreases calls.len(),
    {
        if calls.len() == 0 {
            0
        } else {
            let before = self.claims_of(calls.drop_last(), who);
            match calls.last() {
                Call::ClaimReimbursement { player } => if player == who && self.run(
                    calls.drop_last(),
                ).claim_result(player) is Ok {
                    before + 1
                } else {
                    before
                },
                _ => before,
            }
        }
    }

    /// How many of these calls pay a reimbursement.
    pub open spec fn claims(self, calls: Seq<Call>) -> nat
        decreases calls.len(),
    {
        if calls.len() == 0 {
            0
        } else {
            let before = self.claims(calls.drop_last());
            match calls.last() {
                Call::ClaimReimbursement { player } => if self.run(calls.drop_last()).claim_result(
                    player,
                ) is Ok {
                    before + 1
                } else {
                    before
                },
                _ => before,
            }
        }
    }
}

/// A contract is set up once: its admin, token and policy stay what they are,
/// and setting it up again is refused.
pub proof fn law_set_up_once(s: PlayerInsuranceState, calls: Seq<Call>)
    requires
        s.config is Some,
    ensures
        s.run(calls).config == s.config,
        s.run(calls).init_result() == Err::<(), Error>(Error::AlreadyInitialized),
    decreases calls.len(),
{
    if calls.len() > 0 {
        law_set_up_once(s, calls.drop_last());
    }
}

/// Losses and wins are reported only by the admin, and only with the admin's
/// own authorisation.
pub proof fn law_admin_only(s: PlayerInsuranceState, caller: Address, player: Address)
    ensures
        s.admin_result(caller) is Ok <==> s.config is Some && caller == s.config->0.admin,
        s.loss_result(caller, player) is Ok ==> s.admin_result(caller) is Ok && s.loss_asks(
            caller,
            player,
        )[0] == Effect::<DataKey, Event>::RequireAuth(s.config->0.admin),
        s.admin_result(caller) is Ok ==> s.win_asks(caller, player)[0] == Effect::<
            DataKey,
            Event,
        >::RequireAuth(s.config->0.admin),
{
}

/// From an empty ledger, whatever calls were made, the check for the admin
/// knows no admin until an `init` succeeds. From then on it asks for the
/// caller's authorisation and lets nobody through but the admin whom that
/// `init` set.
pub proof fn law_admin_check(calls: Seq<Call>, caller: Address)
    ensures
        match PlayerInsuranceState::empty().run(calls).config {
            Some(config) => PlayerInsuranceState::empty().admin_set(calls) == Some(config.admin),
            None => PlayerInsuranceState::empty().admin_set(calls) is None,
        },
        PlayerInsuranceState::empty().run(calls).admin_result(caller)
            == match PlayerInsuranceState::empty().admin_set(calls) {
            None => Err::<(), Error>(Error::NotInitialized),
            Some(admin) => if caller == admin {
                Ok(())
            } else {
                Err(Error::NotAuthorized)
            },
        },
        PlayerInsuranceState::empty().run(calls).auth_asks(caller)
            == match PlayerInsuranceState::empty().admin_set(calls) {
            None => Seq::<Effect<DataKey, Event>>::empty(),
            Some(_) => seq![Effect::RequireAuth(caller)],
        },
    decreases calls.len(),
{
    if calls.len() > 0 {
        law_admin_check(calls.drop_last(), caller);
    }
}

/// Whoever does not pass the check for the admin is given its error by every
/// call of the admin, which then changes nothing and asks for no more than
/// the check does.
pub proof fn law_others_are_refused(
    s: PlayerInsuranceState,
    e: Error,
    caller: Address,
    player: Address,
)
    requires
        s.admin_result(caller) == Err::<(), Error>(e),
    ensures
        s.loss_result(caller, player) == Err::<u32, Error>(e),
        s.after_loss(caller, player) == s,
        s.loss_asks(caller, player) == s.auth_asks(caller),
        s.after_win(caller, player) == s,
        s.win_asks(caller, player) == s.auth_asks(caller),
{
}

/// The streak of a player is the number of losses since the last win.
pub proof fn law_streak_counts_losses(calls: Seq<Call>, player: Address)
    ensures
        PlayerInsuranceState::empty().run(calls).record(player).consecutive_losses
            == PlayerInsuranceState::empty().streak(calls, player),
    decreases calls.len(),
{
    if calls.len() > 0 {
        law_streak_counts_losses(calls.drop_last(), player);
    }
}

/// A win ends the streak, and right after one there is nothing to claim.
pub proof fn law_win_resets_streak(s: PlayerInsuranceState, caller: Address, player: Address)
    requires
        s.admin_result(caller) is Ok,
    ensures
        s.after_win(caller, player).record(player).consecutive_losses == 0,
        s.after_win(caller, player).claim_result(player) is Err,
{
}

/// A reimbursement is paid only on a streak that is long enough.
pub proof fn law_claim_needs_streak(s: PlayerInsuranceState, player: Address)
    requires
        s.claim_result(player) is Ok,
    ensures
        s.record(player).consecutive_losses >= s.config->0.min_loss_streak,
        s.record(player).consecutive_losses > s.record(player).last_claim_streak_end,
        s.claim_result(player) == Ok::<i128, Error>(s.config->0.reimbursement_amount),
{
}

/// Every streak qualifies afresh: after a win, whatever calls follow, once the
/// losses since the last win reach the threshold and nothing has been paid to
/// the player since, their claim is paid.
pub proof fn law_new_streak_qualifies(
    s: PlayerInsuranceState,
    caller: Address,
    player: Address,
    calls: Seq<Call>,
)
    requires
        s.admin_result(caller) is Ok,
        s.after_win(caller, player).claims_of(calls, player) == 0,
    ensures
        s.after_win(caller, player).run(calls).record(player).consecutive_losses == s.after_win(
            caller,
            player,
        ).streak(calls, player),
        s.after_win(caller, player).run(calls).record(player).last_claim_streak_end == 0,
        s.after_win(caller, player).streak(calls, player) >= s.config->0.min_loss_streak > 0
            ==> s.after_win(caller, player).run(calls).claim_result(player) == Ok::<i128, Error>(
            s.config->0.reimbursement_amount,
        ),
    decreases calls.len(),
{
    law_set_up_once(s.after_win(caller, player), calls);
    if calls.len() > 0 {
        law_new_streak_qualifies(s, caller, player, calls.drop_last());
    }
}

/// After a claim, whatever calls follow, the next claim is refused until the
/// player has lost once more.
pub proof fn law_no_claim_without_new_loss(
    s: PlayerInsuranceState,
    player: Address,
    calls: Seq<Call>,
)
    requires
        s.claim_result(player) is Ok,
        s.after_claim(player).losses(calls, player) == 0,
    ensures
        s.after_claim(player).run(calls).records.contains_key(player),
        s.after_claim(player).run(calls).record(player).consecutive_losses
            <= s.after_claim(player).run(calls).record(player).last_claim_streak_end,
        s.after_claim(player).run(calls).claim_result(player) is Err,
    decreases calls.len(),
{
    law_set_up_once(s.after_claim(player), calls);
    if calls.len() > 0 {
        law_no_claim_without_new_loss(s, player, calls.drop_last());
    }
}

/// The total is the number of claims paid, as far as it can be counted.
pub proof fn law_claims_are_counted(calls: Seq<Call>)
    ensures
        PlayerInsuranceState::empty().run(calls).total_claims_paid
            == if PlayerInsuranceState::empty().claims(calls) <= u32::MAX {
            PlayerInsuranceState::empty().claims(calls)
        } else {
            u32::MAX as nat
        },
    decreases calls.len(),
{
    if calls.len() > 0 {
        law_claims_are_counted(calls.drop_last());
    }
}

/// A reimbursement is claimed only with the player's own authorisation.
pub proof fn law_player_authorises(s: PlayerInsuranceState, contract: Address, player: Address)
    requires
        s.claim_result(player) is Ok,
    ensures
        s.claim_asks(contract, player)[0] == Effect::<DataKey, Event>::RequireAuth(player),
{
}

/// Before anything is called the ledger holds nothing.
pub proof fn law_starts_empty()
    ensures
        PlayerInsuranceState::empty().config is None,
        PlayerInsuranceState::empty().records == Map::<Address, PlayerInsuranceRecord>::empty(),
        PlayerInsuranceState::empty().total_claims_paid == 0,
{
}

/// Without an admin nobody is asked and everybody is refused. Otherwise the
/// caller is asked for, the admin is let through, and all others are refused.
pub proof fn law_admin_is_let_through(s: PlayerInsuranceState, caller: Address)
    ensures
        s.config is None ==> s.admin_result(caller) == Err::<(), Error>(Error::NotInitialized)
            && s.auth_asks(caller) == Seq::<Effect<DataKey, Event>>::empty(),
        s.config is Some ==> s.auth_asks(caller) =~= seq![Effect::RequireAuth(caller)],
        s.config is Some && caller == s.config->0.admin ==> s.admin_result(caller) == Ok::<
            (),
            Error,
        >(()),
        s.config is Some && caller != s.config->0.admin ==> s.admin_result(caller) == Err::<
            (),
            Error,
        >(Error::NotAuthorized),
{
}

/// A contract that is not set up yet is set up as asked: what `init`
/// was given is written, nothing else changes, and the admin is asked for.
/// Otherwise nothing is written.
pub proof fn law_init_sets_up(s: PlayerInsuranceState, config: Config)
    ensures
        s.config is None ==> {
            &&& s.init_result() == Ok::<(), Error>(())
            &&& s.after_init(config) == (PlayerInsuranceState { config: Some(config), ..s })
            &&& s.init_asks(config.admin) =~= seq![
                Effect::RequireAuth(config.admin),
                Effect::Store(DataKey::Admin),
                Effect::Store(DataKey::Token),
                Effect::Store(DataKey::MinLossStreak),
                Effect::Store(DataKey::ReimbursementAmount),
            ]
        },
        s.config is Some ==> {
            &&& s.init_result() == Err::<(), Error>(Error::AlreadyInitialized)
            &&& s.after_init(config) == s
            &&& s.init_asks(config.admin) =~= Seq::<Effect<DataKey, Event>>::empty()
        },
{
}

/// What is known of a player is what was last written, and of a new player,
/// nothing lost, won or claimed.
pub proof fn law_record_is_what_was_written(s: PlayerInsuranceState, player: Address)
    ensures
        s.records.contains_key(player) ==> s.record(player) == s.records[player],
        !s.records.contains_key(player) ==> s.record(player) == (PlayerInsuranceRecord {
            consecutive_losses: 0,
            total_losses: 0,
            total_wins: 0,
            last_claim_streak_end: 0,
        }),
{
}

/// A loss that the admin reports makes the streak and the number of losses of
/// that player one longer, and touches nothing else. It is refused only if the
/// streak cannot be counted on.
pub proof fn law_loss_is_added(
    s: PlayerInsuranceState,
    caller: Address,
    player: Address,
    had: PlayerInsuranceRecord,
)
    requires
        s.config is Some,
        caller == s.config->0.admin,
        had == s.record(player),
    ensures
        had.consecutive_losses < u32::MAX ==> {
            let streak = (had.consecutive_losses + 1) as u32;
            let losses = if had.total_losses < u32::MAX {
                (had.total_losses + 1) as u32
            } else {
                u32::MAX
            };
            &&& s.loss_result(caller, player) == Ok::<u32, Error>(streak)
            &&& s.after_loss(caller, player) == (PlayerInsuranceState {
                records: s.records.insert(
                    player,
                    PlayerInsuranceRecord {
                        consecutive_losses: streak,
                        total_losses: losses,
                        total_wins: had.total_wins,
                        last_claim_streak_end: had.last_claim_streak_end,
                    },
                ),
                ..s
            })
            &&& s.loss_asks(caller, player) =~= seq![
                Effect::RequireAuth(caller),
                Effect::Store(DataKey::PlayerRecord(player)),
                Effect::ExtendTtl {
                key: DataKey::PlayerRecord(player),
                threshold: 518_400,
                extend_to: 518_400,
            },
                Effect::Publish(
                    Event::LossRecorded(LossRecorded { player, consecutive_losses: streak }),
                ),
            ]
        },
        had.consecutive_losses == u32::MAX ==> {
            &&& s.loss_result(caller, player) == Err::<u32, Error>(Error::Overflow)
            &&& s.after_loss(caller, player) == s
            &&& s.loss_asks(caller, player) =~= seq![Effect::RequireAuth(caller)]
        },
{
}

/// A win that the admin reports ends the streak of that player, with what was
/// claimed on it, counts as a win, and touches nothing else.
pub proof fn law_win_is_added(
    s: PlayerInsuranceState,
    caller: Address,
    player: Address,
    had: PlayerInsuranceRecord,
)
    requires
        s.config is Some,
        caller == s.config->0.admin,
        had == s.record(player),
    ensures
        s.after_win(caller, player) == (PlayerInsuranceState {
            records: s.records.insert(
                player,
                PlayerInsuranceRecord {
                    consecutive_losses: 0,
                    total_losses: had.total_losses,
                    total_wins: if had.total_wins < u32::MAX {
                        (had.total_wins + 1) as u32
                    } else {
                        u32::MAX
                    },
                    last_claim_streak_end: 0,
                },
            ),
            ..s
        }),
        s.win_asks(caller, player) =~= seq![
            Effect::RequireAuth(caller),
            Effect::Store(DataKey::PlayerRecord(player)),
            Effect::ExtendTtl {
                key: DataKey::PlayerRecord(player),
                threshold: 518_400,
                extend_to: 518_400,
            },
            Effect::Publish(Event::WinRecorded(WinRecorded { player })),
        ],
{
}

/// Whoever has lost as often in a row as the policy asks, and more often than
/// when they last claimed on that streak, is owed the reimbursement: the claim
/// succeeds, is noted and counted, and moves the amount to them.
pub proof fn law_qualified_player_is_paid(
    s: PlayerInsuranceState,
    contract: Address,
    player: Address,
    total: u32,
)
    requires
        s.config is Some,
        s.records.contains_key(player),
        s.records[player].consecutive_losses >= s.config->0.min_loss_streak,
        s.records[player].consecutive_losses > s.records[player].last_claim_streak_end,
        s.total_claims_paid < u32::MAX ==> total == s.total_claims_paid + 1,
        s.total_claims_paid == u32::MAX ==> total == u32::MAX,
    ensures
        s.claim_result(player) == Ok::<i128, Error>(s.config->0.reimbursement_amount),
        s.after_claim(player) == (PlayerInsuranceState {
            records: s.records.insert(
                player,
                PlayerInsuranceRecord {
                    last_claim_streak_end: s.records[player].consecutive_losses,
                    ..s.records[player]
                },
            ),
            total_claims_paid: total,
            ..s
        }),
        s.claim_asks(contract, player) =~= seq![
            Effect::RequireAuth(player),
            Effect::Store(DataKey::PlayerRecord(player)),
            Effect::ExtendTtl {
                key: DataKey::PlayerRecord(player),
                threshold: 518_400,
                extend_to: 518_400,
            },
            Effect::Store(DataKey::TotalClaimsPaid),
            Effect::Transfer {
                token: s.config->0.token,
                from: contract,
                to: player,
                amount: s.config->0.reimbursement_amount,
            },
            Effect::Publish(
                Event::ReimbursementClaimed(
                    ReimbursementClaimed {
                        player,
                        amount: s.config->0.reimbursement_amount,
                        at_streak: s.records[player].consecutive_losses,
                    },
                ),
            ),
        ],
        moved(s.claim_asks(contract, player), s.config->0.token, contract, player)
            == s.config->0.reimbursement_amount,
{
    reveal_with_fuel(moved, 7);
}

/// A claim is refused only for one of three reasons, each with its own error.
/// A refused claim notes nothing and moves nothing.
pub proof fn law_claim_is_refused_for_a_reason(
    s: PlayerInsuranceState,
    contract: Address,
    player: Address,
)
    ensures
        s.config is None ==> s.claim_result(player) == Err::<i128, Error>(Error::NotInitialized)
            && s.claim_asks(contract, player) =~= Seq::<Effect<DataKey, Event>>::empty(),
        s.config is Some && (!s.records.contains_key(player)
            || s.records[player].consecutive_losses < s.config->0.min_loss_streak)
            ==> s.claim_result(player) == Err::<i128, Error>(Error::StreakNotQualified),
        s.config is Some && s.records.contains_key(player)
            && s.records[player].consecutive_losses >= s.config->0.min_loss_streak
            && s.records[player].consecutive_losses <= s.records[player].last_claim_streak_end
            ==> s.claim_result(player) == Err::<i128, Error>(Error::AlreadyClaimed),
        s.claim_result(player) is Err ==> s.after_claim(player) == s,
        s.claim_result(player) is Err && s.config is Some ==> s.claim_asks(contract, player)
            =~= seq![Effect::RequireAuth(player)],
{
}

} // verus!
