//! A seasonal battle pass. Players complete missions to earn XP and unlock
//! tiers; each player claims the reward of each tier once per season.
//!
//! The admin calls `init` with the season, then `set_tier` for each tier. XP
//! is credited through `record_xp`, and a player who has reached a tier calls
//! `claim_tier_reward`.

use vstd::prelude::*;

use crate::address::{Address, Key};
use crate::env::{bumped, moved, Effect, Env};
use crate::table::Table;

verus! {

#[derive(Copy, Clone, Debug, Eq, PartialEq, PartialOrd, Ord)]
pub enum Error {
    AlreadyInitialized,
    NotInitialized,
    NotAuthorized,
    TierNotFound,
    TierAlreadyClaimed,
    InsufficientXp,
    InvalidAmount,
    Overflow,
}

impl Error {
    /// The number by which callers of the contract know the error.
    pub fn code(self) -> (code: u32)
        ensures
            code == match self {
                Error::AlreadyInitialized => 1u32,
                Error::NotInitialized => 2,
                Error::NotAuthorized => 3,
                Error::TierNotFound => 4,
                Error::TierAlreadyClaimed => 5,
                Error::InsufficientXp => 6,
                Error::InvalidAmount => 7,
                Error::Overflow => 8,
            },
    {
        match self {
            Error::AlreadyInitialized => 1,
            Error::NotInitialized => 2,
            Error::NotAuthorized => 3,
            Error::TierNotFound => 4,
            Error::TierAlreadyClaimed => 5,
            Error::InsufficientXp => 6,
            Error::InvalidAmount => 7,
            Error::Overflow => 8,
        }
    }
}

/// The names of the contract's ledger entries.
#[derive(Clone, Copy, Debug, Eq, PartialEq)]
pub enum DataKey {
    Admin,
    Token,
    SeasonId,
    SeasonEndLedger,
    Tier(u32),
    PlayerXp(Address),
    PlayerClaimed(Address, u32),
}

#[derive(Clone, Copy, Debug, Eq, PartialEq)]
pub struct TierConfig {
    pub tier_id: u32,
    pub xp_required: u64,
    pub reward_amount: i128,
}

#[derive(Clone, Copy, Debug, Eq, PartialEq)]
pub struct PlayerProgress {
    pub total_xp: u64,
    pub season_id: u32,
}

impl View for TierConfig {
    type V = TierConfig;

    open spec fn view(&self) -> TierConfig {
        *self
    }
}

impl View for PlayerProgress {
    type V = PlayerProgress;

    open spec fn view(&self) -> PlayerProgress {
        *self
    }
}

#[derive(Clone, Copy, Debug, Eq, PartialEq)]
pub struct XpRecorded {
    pub player: Address,
    pub xp_added: u64,
    pub total_xp: u64,
}

#[derive(Clone, Copy, Debug, Eq, PartialEq)]
pub struct TierRewardClaimed {
    pub player: Address,
    pub tier_id: u32,
    pub reward_amount: i128,
}

#[derive(Clone, Copy, Debug, Eq, PartialEq)]
pub enum Event {
    XpRecorded(XpRecorded),
    TierRewardClaimed(TierRewardClaimed),
}

/// What `init` writes.
#[derive(Clone, Copy, Debug, Eq, PartialEq)]
pub struct Config {
    pub admin: Address,
    pub token: Address,
    pub season_id: u32,
    pub season_end_ledger: u32,
}

/// The contract's ledger entries.
pub struct BattlePass {
    pub config: Option<Config>,
    pub tiers: Table<u32, TierConfig>,
    pub player_xp: Table<Address, PlayerProgress>,
    pub player_claimed: Table<(Address, u32), bool>,
}

/// The contract's ledger entries as maps.
#[verifier::ext_equal]
pub struct BattlePassState {
    pub config: Option<Config>,
    pub tiers: Map<u32, TierConfig>,
    pub player_xp: Map<Address, PlayerProgress>,
    pub player_claimed: Map<(Address, u32), bool>,
}

impl View for BattlePass {
    type V = BattlePassState;

    open spec fn view(&self) -> BattlePassState {
        BattlePassState {
            config: self.config,
            tiers: self.tiers@,
            player_xp: self.player_xp@,
            player_claimed: self.player_claimed@,
        }
    }
}

impl BattlePassState {
    /// The ledger before `init`.
    pub open spec fn empty() -> Self {
        BattlePassState {
            config: None,
            tiers: Map::empty(),
            player_xp: Map::empty(),
            player_claimed: Map::empty(),
        }
    }

    /// The request for an authorisation, once there is a contract to call.
    pub open spec fn auth_asks(self, address: Address) -> Seq<Effect<DataKey, Event>> {
        if self.config is Some {
            seq![Effect::RequireAuth(address)]
        } else {
            seq![]
        }
    }

    /// Only the admin may go on.
    pub open spec fn admin_result(self, caller: Address) -> Result<(), Error> {
        match self.config {
            None => Err(Error::NotInitialized),
            Some(config) => if caller == config.admin {
                Ok(())
            } else {
                Err(Error::NotAuthorized)
            },
        }
    }

    pub open spec fn init_result(self) -> Result<(), Error> {
        if self.config is Some {
            Err(Error::AlreadyInitialized)
        } else {
            Ok(())
        }
    }

    pub open spec fn after_init(self, config: Config) -> Self {
        if self.init_result() is Ok {
            BattlePassState { config: Some(config), ..self }
        } else {
            self
        }
    }

    pub open spec fn init_asks(self, admin: Address) -> Seq<Effect<DataKey, Event>> {
        if self.init_result() is Ok {
            seq![
                Effect::RequireAuth(admin),
                Effect::Store(DataKey::Admin),
                Effect::Store(DataKey::Token),
                Effect::Store(DataKey::SeasonId),
                Effect::Store(DataKey::SeasonEndLedger),
            ]
        } else {
            seq![]
        }
    }

    pub open spec fn after_set_tier(self, admin: Address, tier: TierConfig) -> Self {
        if self.admin_result(admin) is Ok {
            BattlePassState { tiers: self.tiers.insert(tier.tier_id, tier), ..self }
        } else {
            self
        }
    }

    pub open spec fn set_tier_asks(self, admin: Address, tier: TierConfig) -> Seq<
        Effect<DataKey, Event>,
    > {
        self.auth_asks(admin) + if self.admin_result(admin) is Ok {
            seq![Effect::Store(DataKey::Tier(tier.tier_id))]
        } else {
            seq![]
        }
    }

    /// What a player has gathered, and nothing if that is not known.
    pub open spec fn progress(self, player: Address) -> PlayerProgress {
        if self.player_xp.contains_key(player) {
            self.player_xp[player]
        } else {
            PlayerProgress {
                total_xp: 0,
                season_id: match self.config {
                    Some(config) => config.season_id,
                    None => 0,
                },
            }
        }
    }

    /// The XP that a player has gathered in the current season.
    pub open spec fn season_xp(self, player: Address) -> u64 {
        if self.progress(player).season_id == self.config->0.season_id {
            self.progress(player).total_xp
        } else {
            0
        }
    }

    /// XP adds up within a season. XP of another season does not count.
    pub open spec fn record_xp_result(self, caller: Address, player: Address, xp: u64) -> Result<
        PlayerProgress,
        Error,
    > {
        match self.admin_result(caller) {
            Err(e) => Err(e),
            Ok(_) => if self.season_xp(player) + xp > u64::MAX {
                Err(Error::Overflow)
            } else {
                Ok(
                    PlayerProgress {
                        total_xp: (self.season_xp(player) + xp) as u64,
                        season_id: self.config->0.season_id,
                    },
                )
            },
        }
    }

    pub open spec fn after_record_xp(self, caller: Address, player: Address, xp: u64) -> Self {
        match self.record_xp_result(caller, player, xp) {
            Ok(progress) => BattlePassState {
                player_xp: self.player_xp.insert(player, progress),
                ..self
            },
            Err(_) => self,
        }
    }

    pub open spec fn record_xp_asks(self, caller: Address, player: Address, xp: u64) -> Seq<
        Effect<DataKey, Event>,
    > {
        self.auth_asks(caller) + match self.record_xp_result(caller, player, xp) {
            Ok(progress) => seq![
                Effect::Store(DataKey::PlayerXp(player)),
                bumped(DataKey::PlayerXp(player)),
                Effect::Publish(
                    Event::XpRecorded(
                        XpRecorded { player, xp_added: xp, total_xp: progress.total_xp },
                    ),
                ),
            ],
            Err(_) => seq![],
        }
    }

    /// A player who has the XP of a tier and has not claimed it yet gets its reward.
    pub open spec fn claim_result(self, player: Address, tier_id: u32) -> Result<i128, Error> {
        if self.config is None {
            Err(Error::NotInitialized)
        } else if !self.tiers.contains_key(tier_id) {
            Err(Error::TierNotFound)
        } else if self.player_claimed.contains_key((player, tier_id)) {
            Err(Error::TierAlreadyClaimed)
        } else if self.progress(player).total_xp < self.tiers[tier_id].xp_required {
            Err(Error::InsufficientXp)
        } else {
            Ok(self.tiers[tier_id].reward_amount)
        }
    }

    pub open spec fn after_claim(self, player: Address, tier_id: u32) -> Self {
        if self.claim_result(player, tier_id) is Ok {
            BattlePassState {
                player_claimed: self.player_claimed.insert((player, tier_id), true),
                ..self
            }
        } else {
            self
        }
    }

    /// The reward goes from the contract to the player, after the claim is marked.
    pub open spec fn claim_asks(self, contract: Address, player: Address, tier_id: u32) -> Seq<
        Effect<DataKey, Event>,
    > {
        self.auth_asks(player) + match self.claim_result(player, tier_id) {
            Ok(reward_amount) => seq![
                Effect::Store(DataKey::PlayerClaimed(player, tier_id)),
                bumped(DataKey::PlayerClaimed(player, tier_id)),
                Effect::Transfer {
                    token: self.config->0.token,
                    from: contract,
                    to: player,
                    amount: reward_amount,
                },
                Effect::Publish(
                    Event::TierRewardClaimed(TierRewardClaimed { player, tier_id, reward_amount }),
                ),
            ],
            Err(_) => seq![],
        }
    }
}

impl BattlePass {
    /// The contract before `init`.
    pub fn new() -> (pass: Self)
        ensures
            pass@ == BattlePassState::empty(),
    {
        BattlePass {
            config: None,
            tiers: Table::new(),
            player_xp: Table::new(),
            player_claimed: Table::new(),
        }
    }

    /// Asks for the caller's authorisation, and refuses anyone but the admin.
    pub fn require_admin(&self, env: &mut Env<DataKey, Event>, caller: Address) -> (r: Result<
        (),
        Error,
    >)
        ensures
            r == self@.admin_result(caller),
            final(env).after(*old(env), self@.auth_asks(caller)),
    {
        match &self.config {
            None => Err(Error::NotInitialized),
            Some(config) => {
                env.require_auth(caller);
                if caller.same(&config.admin) {
                    Ok(())
                } else {
                    Err(Error::NotAuthorized)
                }
            },
        }
    }

    pub fn init(
        &mut self,
        env: &mut Env<DataKey, Event>,
        admin: Address,
        token: Address,
        season_id: u32,
        season_end_ledger: u32,
    ) -> (r: Result<(), Error>)
        ensures
            r is Err ==> final(self)@ == old(self)@,
            r == old(self)@.init_result(),
            final(self)@ == old(self)@.after_init(
                Config { admin, token, season_id, season_end_ledger },
            ),
            final(env).after(*old(env), old(self)@.init_asks(admin)),
    {
        if self.config.is_some() {
            return Err(Error::AlreadyInitialized);
        }
        env.require_auth(admin);
        self.config = Some(Config { admin, token, season_id, season_end_ledger });
        env.store(DataKey::Admin);
        env.store(DataKey::Token);
        env.store(DataKey::SeasonId);
        env.store(DataKey::SeasonEndLedger);
        Ok(())
    }

    /// Adds a tier or replaces it. Admin only.
    pub fn set_tier(
        &mut self,
        env: &mut Env<DataKey, Event>,
        admin: Address,
        tier: TierConfig,
    ) -> (r: Result<(), Error>)
        ensures
            r is Err ==> final(self)@ == old(self)@,
            r == old(self)@.admin_result(admin),
            final(self)@ == old(self)@.after_set_tier(admin, tier),
            final(env).after(*old(env), old(self)@.set_tier_asks(admin, tier)),
    {
        if let Err(e) = self.require_admin(env, admin) {
            return Err(e);
        }
        self.tiers.set(tier.tier_id, tier);
        env.store(DataKey::Tier(tier.tier_id));
        Ok(())
    }

    /// Credits XP to a player. The caller must be the admin, who acts for the
    /// game contracts.
    pub fn record_xp(
        &mut self,
        env: &mut Env<DataKey, Event>,
        caller: Address,
        player: Address,
        xp: u64,
    ) -> (r: Result<PlayerProgress, Error>)
        ensures
            r is Err ==> final(self)@ == old(self)@,
            r == old(self)@.record_xp_result(caller, player, xp),
            final(self)@ == old(self)@.after_record_xp(caller, player, xp),
            final(env).after(*old(env), old(self)@.record_xp_asks(caller, player, xp)),
    {
        if let Err(e) = self.require_admin(env, caller) {
            return Err(e);
        }
        let season_id: u32 = match &self.config {
            Some(config) => config.season_id,
            None => {
                return Err(Error::NotInitialized);
            },
        };
        let mut progress: PlayerProgress = match self.player_xp.get(&player) {
            Some(progress) => *progress,
            None => PlayerProgress { total_xp: 0, season_id },
        };
        if progress.season_id != season_id {
            progress.total_xp = 0;
            progress.season_id = season_id;
        }
        progress.total_xp = match progress.total_xp.checked_add(xp) {
            Some(total_xp) => total_xp,
            None => {
                return Err(Error::Overflow);
            },
        };
        self.player_xp.set(player, progress);
        env.store(DataKey::PlayerXp(player));
        env.bump(DataKey::PlayerXp(player));
        env.publish(
            Event::XpRecorded(XpRecorded { player, xp_added: xp, total_xp: progress.total_xp }),
        );
        Ok(progress)
    }

    /// A player claims the reward of a tier that they have unlocked.
    pub fn claim_tier_reward(
        &mut self,
        env: &mut Env<DataKey, Event>,
        player: Address,
        tier_id: u32,
    ) -> (r: Result<i128, Error>)
        ensures
            r is Err ==> final(self)@ == old(self)@,
            r == old(self)@.claim_result(player, tier_id),
            final(self)@ == old(self)@.after_claim(player, tier_id),
            final(env).after(*old(env), old(self)@.claim_asks(old(env).contract, player, tier_id)),
    {
        let config: Config = match self.config {
            Some(config) => config,
            None => {
                return Err(Error::NotInitialized);
            },
        };
        env.require_auth(player);
        let tier: TierConfig = match self.tiers.get(&tier_id) {
            Some(tier) => *tier,
            None => {
                return Err(Error::TierNotFound);
            },
        };
        if self.player_claimed.has(&(player, tier_id)) {
            return Err(Error::TierAlreadyClaimed);
        }
        let total_xp: u64 = match self.player_xp.get(&player) {
            Some(progress) => progress.total_xp,
            None => 0,
        };
        if total_xp < tier.xp_required {
            return Err(Error::InsufficientXp);
        }
        self.player_claimed.set((player, tier_id), true);
        env.store(DataKey::PlayerClaimed(player, tier_id));
        env.bump(DataKey::PlayerClaimed(player, tier_id));
        let contract: Address = env.contract;
        env.transfer(config.token, contract, player, tier.reward_amount);
        env.publish(
            Event::TierRewardClaimed(
                TierRewardClaimed { player, tier_id, reward_amount: tier.reward_amount },
            ),
        );
        Ok(tier.reward_amount)
    }

    pub fn get_player_progress(&self, player: Address) -> (progress: PlayerProgress)
        ensures
            progress == self@.progress(player),
    {
        match self.player_xp.get(&player) {
            Some(progress) => *progress,
            None => {
                let season_id: u32 = match &self.config {
                    Some(config) => config.season_id,
                    None => 0,
                };
                PlayerProgress { total_xp: 0, season_id }
            },
        }
    }

    pub fn get_tier(&self, tier_id: u32) -> (r: Result<TierConfig, Error>)
        ensures
            r == if self@.tiers.contains_key(tier_id) {
                Ok::<TierConfig, Error>(self@.tiers[tier_id])
            } else {
                Err(Error::TierNotFound)
            },
    {
        match self.tiers.get(&tier_id) {
            Some(tier) => Ok(*tier),
            None => Err(Error::TierNotFound),
        }
    }

    pub fn has_claimed(&self, player: Address, tier_id: u32) -> (r: bool)
        ensures
            r == self@.player_claimed.contains_key((player, tier_id)),
    {
        self.player_claimed.has(&(player, tier_id))
    }
}

/// One call that may change the contract's ledger entries.
pub enum Call {
    Init { config: Config },
    SetTier { admin: Address, tier: TierConfig },
    RecordXp { caller: Address, player: Address, xp: u64 },
    ClaimTierReward { player: Address, tier_id: u32 },
}

impl BattlePassState {
    pub open spec fn step(self, call: Call) -> Self {
        match call {
            Call::Init { config } => self.after_init(config),
            Call::SetTier { admin, tier } => self.after_set_tier(admin, tier),
            Call::RecordXp { caller, player, xp } => self.after_record_xp(caller, player, xp),
            Call::ClaimTierReward { player, tier_id } => self.after_claim(player, tier_id),
        }
    }

    /// What becomes of the ledger when calls are made one after the other.
    pub open spec fn run(self, calls: Seq<Call>) -> Self
        decreases calls.len(),
    {
        if calls.len() == 0 {
            self
        } else {
            self.run(calls.drop_last()).step(calls.last())
        }
    }

    /// The admin whom the `init` among these calls set, if one succeeded.
    pub open spec fn admin_set(self, calls: Seq<Call>) -> Option<Address>
        decreases calls.len(),
    {
        if calls.len() == 0 {
            None
        } else {
            let before = self.admin_set(calls.drop_last());
            match calls.last() {
                Call::Init { config } => if self.run(calls.drop_last()).init_result() is Ok {
                    Some(config.admin)
                } else {
                    before
                },
                _ => before,
            }
        }
    }

    /// The XP that these calls credit to a player.
    pub open spec fn credited(self, calls: Seq<Call>, who: Address) -> nat
        decreases calls.len(),
    {
        if calls.len() == 0 {
            0
        } else {
            let before = self.credited(calls.drop_last(), who);
            match calls.last() {
                Call::RecordXp { caller, player, xp } => if player == who && self.run(
                    calls.drop_last(),
                ).record_xp_result(caller, player, xp) is Ok {
                    before + xp as nat
                } else {
                    before
                },
                _ => before,
            }
        }
    }

    /// Everything known of players belongs to the season that the contract
    /// was set up for, and every tier stands under its own number.
    pub open spec fn in_season(self) -> bool {
        &&& forall|player: Address| #[trigger]
            self.player_xp.contains_key(player) ==> self.config is Some
                && self.player_xp[player].season_id == self.config->0.season_id
        &&& forall|tier_id: u32| #[trigger]
            self.tiers.contains_key(tier_id) ==> self.config is Some && self.tiers[tier_id].tier_id
                == tier_id
        &&& forall|player: Address, tier_id: u32| #[trigger]
            self.player_claimed.contains_key((player, tier_id)) ==> self.tiers.contains_key(tier_id)
    }
}

/// A contract is set up once: its admin, token and season stay what they are,
/// and setting it up again is refused.
pub proof fn law_set_up_once(s: BattlePassState, calls: Seq<Call>)
    requires
        s.config is Some,
    ensures
        s.run(calls).config == s.config,
        s.run(calls).init_result() == Err::<(), Error>(Error::AlreadyInitialized),
    decreases calls.len(),
{
    if calls.len() > 0 {
        law_set_up_once(s, calls.drop_last());
    }
}

/// Setting tiers and crediting XP succeed only for the admin, and only with
/// the admin's own authorisation.
pub proof fn law_admin_only(
    s: BattlePassState,
    caller: Address,
    tier: TierConfig,
    player: Address,
    xp: u64,
)
    ensures
        s.admin_result(caller) is Ok <==> s.config is Some && caller == s.config->0.admin,
        s.admin_result(caller) is Ok ==> s.set_tier_asks(caller, tier)[0]
            == Effect::<DataKey, Event>::RequireAuth(s.config->0.admin),
        s.record_xp_result(caller, player, xp) is Ok ==> caller == s.config->0.admin
            && s.record_xp_asks(caller, player, xp)[0] == Effect::<DataKey, Event>::RequireAuth(
            s.config->0.admin,
        ),
{
}

/// From an empty ledger, whatever calls were made, the check for the admin
/// knows no admin until an `init` succeeds. From then on it asks for the
/// caller's authorisation and lets nobody through but the admin whom that
/// `init` set.
pub proof fn law_admin_check(calls: Seq<Call>, caller: Address)
    ensures
        match BattlePassState::empty().run(calls).config {
            Some(config) => BattlePassState::empty().admin_set(calls) == Some(config.admin),
            None => BattlePassState::empty().admin_set(calls) is None,
        },
        BattlePassState::empty().run(calls).admin_result(caller)
            == match BattlePassState::empty().admin_set(calls) {
            None => Err::<(), Error>(Error::NotInitialized),
            Some(admin) => if caller == admin {
                Ok(())
            } else {
                Err(Error::NotAuthorized)
            },
        },
        BattlePassState::empty().run(calls).auth_asks(caller)
            == match BattlePassState::empty().admin_set(calls) {
            None => Seq::<Effect<DataKey, Event>>::empty(),
            Some(_) => seq![Effect::RequireAuth(caller)],
        },
    decreases calls.len(),
{
    if calls.len() > 0 {
        law_admin_check(calls.drop_last(), caller);
    }
}

/// Whoever does not pass the check for the admin is given its error by every
/// call of the admin, which then changes nothing and asks for no more than
/// the check does.
pub proof fn law_others_are_refused(
    s: BattlePassState,
    e: Error,
    caller: Address,
    tier: TierConfig,
    player: Address,
    xp: u64,
)
    requires
        s.admin_result(caller) == Err::<(), Error>(e),
    ensures
        s.after_set_tier(caller, tier) == s,
        s.set_tier_asks(caller, tier) == s.auth_asks(caller),
        s.record_xp_result(caller, player, xp) == Err::<PlayerProgress, Error>(e),
        s.after_record_xp(caller, player, xp) == s,
        s.record_xp_asks(caller, player, xp) == s.auth_asks(caller),
{
}

proof fn lemma_claim_lasts(s: BattlePassState, player: Address, tier_id: u32, calls: Seq<Call>)
    requires
        s.config is Some,
        s.tiers.contains_key(tier_id),
        s.player_claimed.contains_key((player, tier_id)),
    ensures
        s.run(calls).config is Some,
        s.run(calls).tiers.contains_key(tier_id),
        s.run(calls).player_claimed.contains_key((player, tier_id)),
    decreases calls.len(),
{
    if calls.len() > 0 {
        lemma_claim_lasts(s, player, tier_id, calls.drop_last());
    }
}

/// A player claims the reward of a tier at most once: whatever calls follow a
/// claim that succeeded, claiming the tier again is refused.
pub proof fn law_claimed_once(s: BattlePassState, player: Address, tier_id: u32, calls: Seq<Call>)
    requires
        s.claim_result(player, tier_id) is Ok,
    ensures
        s.after_claim(player, tier_id).run(calls).claim_result(player, tier_id) == Err::<
            i128,
            Error,
        >(Error::TierAlreadyClaimed),
{
    lemma_claim_lasts(s.after_claim(player, tier_id), player, tier_id, calls);
}

/// Crediting XP twice is crediting the sum once.
pub proof fn law_xp_accumulates(
    s: BattlePassState,
    caller: Address,
    player: Address,
    first: u64,
    second: u64,
)
    requires
        s.record_xp_result(caller, player, first) is Ok,
        s.after_record_xp(caller, player, first).record_xp_result(caller, player, second) is Ok,
    ensures
        first + second <= u64::MAX,
        s.after_record_xp(caller, player, first).record_xp_result(caller, player, second)
            == s.record_xp_result(caller, player, (first + second) as u64),
        s.after_record_xp(caller, player, first).after_record_xp(caller, player, second)
            == s.after_record_xp(caller, player, (first + second) as u64),
        s.after_record_xp(caller, player, first).after_record_xp(
            caller,
            player,
            second,
        ).progress(player).total_xp == s.season_xp(player) + first + second,
{
    assert(s.after_record_xp(caller, player, first).after_record_xp(caller, player, second)
        =~= s.after_record_xp(caller, player, (first + second) as u64));
}

/// From an empty ledger, no calls lead out of the season.
pub proof fn law_in_season(calls: Seq<Call>)
    ensures
        BattlePassState::empty().run(calls).in_season(),
    decreases calls.len(),
{
    if calls.len() > 0 {
        law_in_season(calls.drop_last());
    }
}

/// From an empty ledger, a player's XP is all that was credited to them.
pub proof fn law_xp_is_what_was_credited(calls: Seq<Call>, player: Address)
    ensures
        BattlePassState::empty().run(calls).progress(player).total_xp
            == BattlePassState::empty().credited(calls, player),
    decreases calls.len(),
{
    if calls.len() > 0 {
        law_xp_is_what_was_credited(calls.drop_last(), player);
        law_in_season(calls.drop_last());
        let s = BattlePassState::empty().run(calls.drop_last());
        assert(s.player_xp.contains_key(player) ==> s.player_xp[player].season_id
            == s.config->0.season_id);
    }
}

/// A reward is paid only to a player whose XP of this season reaches the tier.
pub proof fn law_claim_needs_xp(s: BattlePassState, player: Address, tier_id: u32)
    requires
        s.in_season(),
        s.claim_result(player, tier_id) is Ok,
    ensures
        s.season_xp(player) >= s.tiers[tier_id].xp_required,
        s.claim_result(player, tier_id) == Ok::<i128, Error>(s.tiers[tier_id].reward_amount),
{
}

/// A reward is claimed only with the player's own authorisation.
pub proof fn law_player_authorises(
    s: BattlePassState,
    contract: Address,
    player: Address,
    tier_id: u32,
)
    requires
        s.claim_result(player, tier_id) is Ok,
    ensures
        s.claim_asks(contract, player, tier_id)[0] == Effect::<DataKey, Event>::RequireAuth(player),
{
}

/// Before anything is called the ledger holds nothing.
pub proof fn law_starts_empty()
    ensures
        BattlePassState::empty().config is None,
        BattlePassState::empty().tiers == Map::<u32, TierConfig>::empty(),
        BattlePassState::empty().player_xp == Map::<Address, PlayerProgress>::empty(),
        BattlePassState::empty().player_claimed == Map::<(Address, u32), bool>::empty(),
{
}

/// Without an admin nobody is asked and everybody is refused. Otherwise the
/// caller is asked for, the admin is let through, and all others are refused.
pub proof fn law_admin_is_let_through(s: BattlePassState, caller: Address)
    ensures
        s.config is None ==> s.admin_result(caller) == Err::<(), Error>(Error::NotInitialized)
            && s.auth_asks(caller) == Seq::<Effect<DataKey, Event>>::empty(),
        s.config is Some ==> s.auth_asks(caller) =~= seq![Effect::RequireAuth(caller)],
        s.config is Some && caller == s.config->0.admin ==> s.admin_result(caller) == Ok::<
            (),
            Error,
        >(()),
        s.config is Some && caller != s.config->0.admin ==> s.admin_result(caller) == Err::<
            (),
            Error,
        >(Error::NotAuthorized),
{
}

/// A contract that is not set up yet is set up as asked: what `init`
/// was given is written, nothing else changes, and the admin is asked for.
/// Otherwise nothing is written.
pub proof fn law_init_sets_up(s: BattlePassState, config: Config)
    ensures
        s.config is None ==> {
            &&& s.init_result() == Ok::<(), Error>(())
            &&& s.after_init(config) == (BattlePassState { config: Some(config), ..s })
            &&& s.init_asks(config.admin) =~= seq![
                Effect::RequireAuth(config.admin),
                Effect::Store(DataKey::Admin),
                Effect::Store(DataKey::Token),
                Effect::Store(DataKey::SeasonId),
                Effect::Store(DataKey::SeasonEndLedger),
            ]
        },
        s.config is Some ==> {
            &&& s.init_result() == Err::<(), Error>(Error::AlreadyInitialized)
            &&& s.after_init(config) == s
            &&& s.init_asks(config.admin) =~= Seq::<Effect<DataKey, Event>>::empty()
        },
{
}

/// The admin adds or replaces the one tier that is given, and no other.
pub proof fn law_set_tier_sets_one(s: BattlePassState, caller: Address, tier: TierConfig)
    requires
        s.config is Some,
        caller == s.config->0.admin,
    ensures
        s.after_set_tier(caller, tier) == (BattlePassState {
            tiers: s.tiers.insert(tier.tier_id, tier),
            ..s
        }),
        s.set_tier_asks(caller, tier) =~= seq![
            Effect::RequireAuth(caller),
            Effect::Store(DataKey::Tier(tier.tier_id)),
        ],
{
}

/// The admin's credit is added to what the player had in this season, in full
/// and for that player only. It is refused only if the sum is too large.
pub proof fn law_record_xp_adds(
    s: BattlePassState,
    caller: Address,
    player: Address,
    xp: u64,
    had: int,
)
    requires
        s.config is Some,
        caller == s.config->0.admin,
        s.player_xp.contains_key(player) && s.player_xp[player].season_id
            == s.config->0.season_id ==> had == s.player_xp[player].total_xp,
        !(s.player_xp.contains_key(player) && s.player_xp[player].season_id
            == s.config->0.season_id) ==> had == 0,
    ensures
        had + xp <= u64::MAX ==> {
            let progress = PlayerProgress {
                total_xp: (had + xp) as u64,
                season_id: s.config->0.season_id,
            };
            &&& s.record_xp_result(caller, player, xp) == Ok::<PlayerProgress, Error>(progress)
            &&& s.after_record_xp(caller, player, xp) == (BattlePassState {
                player_xp: s.player_xp.insert(player, progress),
                ..s
            })
            &&& s.record_xp_asks(caller, player, xp) =~= seq![
                Effect::RequireAuth(caller),
                Effect::Store(DataKey::PlayerXp(player)),
                Effect::ExtendTtl {
                key: DataKey::PlayerXp(player),
                threshold: 518_400,
                extend_to: 518_400,
            },
                Effect::Publish(
                    Event::XpRecorded(
                        XpRecorded { player, xp_added: xp, total_xp: (had + xp) as u64 },
                    ),
                ),
            ]
        },
        had + xp > u64::MAX ==> {
            &&& s.record_xp_result(caller, player, xp) == Err::<PlayerProgress, Error>(
                Error::Overflow,
            )
            &&& s.after_record_xp(caller, player, xp) == s
            &&& s.record_xp_asks(caller, player, xp) =~= seq![Effect::RequireAuth(caller)]
        },
{
}

/// What is known of a player is what was last written, and of a player of whom
/// nothing was written, no XP.
pub proof fn law_progress_is_what_was_written(s: BattlePassState, player: Address)
    ensures
        s.player_xp.contains_key(player) ==> s.progress(player) == s.player_xp[player],
        !s.player_xp.contains_key(player) ==> s.progress(player).total_xp == 0,
        !s.player_xp.contains_key(player) && s.config is Some ==> s.progress(player).season_id
            == s.config->0.season_id,
        !s.player_xp.contains_key(player) && s.config is None ==> s.progress(player).season_id
            == 0,
{
}

/// Whoever has reached a tier and not claimed it yet is owed its reward: the
/// claim succeeds, is marked, and moves the reward from the contract to them.
pub proof fn law_reached_tier_is_paid(
    s: BattlePassState,
    contract: Address,
    player: Address,
    tier_id: u32,
)
    requires
        s.config is Some,
        s.tiers.contains_key(tier_id),
        !s.player_claimed.contains_key((player, tier_id)),
        s.tiers[tier_id].xp_required == 0 || s.player_xp.contains_key(player)
            && s.player_xp[player].total_xp >= s.tiers[tier_id].xp_required,
    ensures
        s.claim_result(player, tier_id) == Ok::<i128, Error>(s.tiers[tier_id].reward_amount),
        s.after_claim(player, tier_id) == (BattlePassState {
            player_claimed: s.player_claimed.insert((player, tier_id), true),
            ..s
        }),
        s.claim_asks(contract, player, tier_id) =~= seq![
            Effect::RequireAuth(player),
            Effect::Store(DataKey::PlayerClaimed(player, tier_id)),
            Effect::ExtendTtl {
                key: DataKey::PlayerClaimed(player, tier_id),
                threshold: 518_400,
                extend_to: 518_400,
            },
            Effect::Transfer {
                token: s.config->0.token,
                from: contract,
                to: player,
                amount: s.tiers[tier_id].reward_amount,
            },
            Effect::Publish(
                Event::TierRewardClaimed(
                    TierRewardClaimed {
                        player,
                        tier_id,
                        reward_amount: s.tiers[tier_id].reward_amount,
                    },
                ),
            ),
        ],
        moved(s.claim_asks(contract, player, tier_id), s.config->0.token, contract, player)
            == s.tiers[tier_id].reward_amount,
{
    reveal_with_fuel(moved, 6);
}

/// A claim is refused only for one of four reasons, each with its own error:
/// there is no contract, no such tier, the tier is claimed, or the XP falls
/// short. A refused claim marks nothing and moves nothing.
pub proof fn law_claim_is_refused_for_a_reason(
    s: BattlePassState,
    contract: Address,
    player: Address,
    tier_id: u32,
)
    ensures
        s.config is None ==> s.claim_result(player, tier_id) == Err::<i128, Error>(
            Error::NotInitialized,
        ) && s.claim_asks(contract, player, tier_id) =~= Seq::<Effect<DataKey, Event>>::empty(),
        s.config is Some && !s.tiers.contains_key(tier_id) ==> s.claim_result(player, tier_id)
            == Err::<i128, Error>(Error::TierNotFound),
        s.config is Some && s.tiers.contains_key(tier_id) && s.player_claimed.contains_key(
            (player, tier_id),
        ) ==> s.claim_result(player, tier_id) == Err::<i128, Error>(Error::TierAlreadyClaimed),
        s.config is Some && s.tiers.contains_key(tier_id) && !s.player_claimed.contains_key(
            (player, tier_id),
        ) && s.tiers[tier_id].xp_required > 0 && (!s.player_xp.contains_key(player)
            || s.player_xp[player].total_xp < s.tiers[tier_id].xp_required) ==> s.claim_result(
            player,
            tier_id,
        ) == Err::<i128, Error>(Error::InsufficientXp),
        s.claim_result(player, tier_id) is Err ==> s.after_claim(player, tier_id) == s,
        s.claim_result(player, tier_id) is Err && s.config is Some ==> s.claim_asks(
            contract,
            player,
            tier_id,
        ) =~= seq![Effect::RequireAuth(player)],
{
}

/// Once a claim would succeed, more XP for anybody never makes it fail.
pub proof fn law_more_xp_keeps_a_claim(
    s: BattlePassState,
    player: Address,
    tier_id: u32,
    caller: Address,
    other: Address,
    xp: u64,
)
    requires
        s.in_season(),
        s.claim_result(player, tier_id) is Ok,
    ensures
        s.after_record_xp(caller, other, xp).claim_result(player, tier_id) == s.claim_result(
            player,
            tier_id,
        ),
{
}

} // verus!
