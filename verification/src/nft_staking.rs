//! Staking of NFTs. A player locks an NFT and earns yield on it by the second,
//! claims the yield at any time, and takes the NFT back with what remains.
//!
//! The admin calls `init` with the NFT contract, the reward token and the yield
//! rate, in reward-token units per staked NFT per second. Players then call
//! `stake`, `claim_rewards` and `unstake`.

use vstd::prelude::*;

use crate::address::{Address, Key};
use crate::env::{bumped, moved, Effect, Env};
use crate::table::Table;

verus! {

#[derive(Copy, Clone, Debug, Eq, PartialEq, PartialOrd, Ord)]
pub enum Error {
    AlreadyInitialized,
    NotInitialized,
    NotAuthorized,
    NftAlreadyStaked,
    NftNotStaked,
    NotOwner,
    InvalidAmount,
    Overflow,
}

impl Error {
    /// The number by which callers of the contract know the error.
    pub fn code(self) -> (code: u32)
        ensures
            code == match self {
                Error::AlreadyInitialized => 1u32,
                Error::NotInitialized => 2,
                Error::NotAuthorized => 3,
                Error::NftAlreadyStaked => 4,
                Error::NftNotStaked => 5,
                Error::NotOwner => 6,
                Error::InvalidAmount => 7,
                Error::Overflow => 8,
            },
    {
        match self {
            Error::AlreadyInitialized => 1,
            Error::NotInitialized => 2,
            Error::NotAuthorized => 3,
            Error::NftAlreadyStaked => 4,
            Error::NftNotStaked => 5,
            Error::NotOwner => 6,
            Error::InvalidAmount => 7,
            Error::Overflow => 8,
        }
    }
}

/// The names of the contract's ledger entries.
#[derive(Clone, Copy, Debug, Eq, PartialEq)]
pub enum DataKey {
    Admin,
    NftContract,
    RewardToken,
    YieldRatePerSecond,
    StakeRecord(u64),
    PlayerStakes(Address),
    TotalStaked,
}

#[derive(Clone, Copy, Debug, Eq, PartialEq)]
pub struct StakeRecord {
    pub owner: Address,
    pub nft_id: u64,
    pub staked_at_ts: u64,
    pub last_claim_ts: u64,
}

impl View for StakeRecord {
    type V = StakeRecord;

    open spec fn view(&self) -> StakeRecord {
        *self
    }
}

#[derive(Clone, Copy, Debug, Eq, PartialEq)]
pub struct NftStaked {
    pub player: Address,
    pub nft_id: u64,
}

#[derive(Clone, Copy, Debug, Eq, PartialEq)]
pub struct NftUnstaked {
    pub player: Address,
    pub nft_id: u64,
    pub rewards_claimed: i128,
}

#[derive(Clone, Copy, Debug, Eq, PartialEq)]
pub struct RewardsClaimed {
    pub player: Address,
    pub amount: i128,
}

#[derive(Clone, Copy, Debug, Eq, PartialEq)]
pub enum Event {
    NftStaked(NftStaked),
    NftUnstaked(NftUnstaked),
    RewardsClaimed(RewardsClaimed),
}

/// What `init` writes.
#[derive(Clone, Copy, Debug, Eq, PartialEq)]
pub struct Config {
    pub admin: Address,
    pub nft_contract: Address,
    pub reward_token: Address,
    pub yield_rate_per_second: i128,
}

/// The contract's ledger entries.
pub struct NftStaking {
    pub config: Option<Config>,
    pub stakes: Table<u64, StakeRecord>,
    pub player_stakes: Table<Address, Vec<u64>>,
    pub total_staked: u32,
}

/// The contract's ledger entries as maps.
#[verifier::ext_equal]
pub struct NftStakingState {
    pub config: Option<Config>,
    pub stakes: Map<u64, StakeRecord>,
    pub player_stakes: Map<Address, Seq<u64>>,
    pub total_staked: u32,
}

impl View for NftStaking {
    type V = NftStakingState;

    open spec fn view(&self) -> NftStakingState {
        NftStakingState {
            config: self.config,
            stakes: self.stakes@,
            player_stakes: self.player_stakes@,
            total_staked: self.total_staked,
        }
    }
}

/// The list without `nft_id`.
pub open spec fn without(list: Seq<u64>, nft_id: u64) -> Seq<u64> {
    list.filter(|id: u64| id != nft_id)
}

impl NftStakingState {
    /// The ledger before `init`.
    pub open spec fn empty() -> Self {
        NftStakingState {
            config: None,
            stakes: Map::empty(),
            player_stakes: Map::empty(),
            total_staked: 0,
        }
    }

    /// The request for an authorisation, once there is a contract to call.
    pub open spec fn auth_asks(self, address: Address) -> Seq<Effect<DataKey, Event>> {
        if self.config is Some {
            seq![Effect::RequireAuth(address)]
        } else {
            seq![]
        }
    }

    pub open spec fn init_result(self, config: Config) -> Result<(), Error> {
        if self.config is Some {
            Err(Error::AlreadyInitialized)
        } else if config.yield_rate_per_second <= 0 {
            Err(Error::InvalidAmount)
        } else {
            Ok(())
        }
    }

    pub open spec fn after_init(self, config: Config) -> Self {
        if self.init_result(config) is Ok {
            NftStakingState { config: Some(config), ..self }
        } else {
            self
        }
    }

    pub open spec fn init_asks(self, config: Config) -> Seq<Effect<DataKey, Event>> {
        if self.config is Some {
            seq![]
        } else if self.init_result(config) is Err {
            seq![Effect::RequireAuth(config.admin)]
        } else {
            seq![
                Effect::RequireAuth(config.admin),
                Effect::Store(DataKey::Admin),
                Effect::Store(DataKey::NftContract),
                Effect::Store(DataKey::RewardToken),
                Effect::Store(DataKey::YieldRatePerSecond),
            ]
        }
    }

    /// The NFTs that a player has staked, in the order in which they came.
    pub open spec fn stakes_of(self, player: Address) -> Seq<u64> {
        if self.player_stakes.contains_key(player) {
            self.player_stakes[player]
        } else {
            seq![]
        }
    }

    pub open spec fn stake_result(self, nft_id: u64) -> Result<(), Error> {
        if self.config is None {
            Err(Error::NotInitialized)
        } else if self.stakes.contains_key(nft_id) {
            Err(Error::NftAlreadyStaked)
        } else {
            Ok(())
        }
    }

    pub open spec fn after_stake(self, now: u64, player: Address, nft_id: u64) -> Self {
        if self.stake_result(nft_id) is Ok {
            NftStakingState {
                stakes: self.stakes.insert(
                    nft_id,
                    StakeRecord { owner: player, nft_id, staked_at_ts: now, last_claim_ts: now },
                ),
                player_stakes: self.player_stakes.insert(
                    player,
                    self.stakes_of(player).push(nft_id),
                ),
                total_staked: self.total_staked.saturating_add(1),
                ..self
            }
        } else {
            self
        }
    }

    /// The NFT counts as one unit of the NFT contract's token.
    pub open spec fn stake_asks(self, contract: Address, player: Address, nft_id: u64) -> Seq<
        Effect<DataKey, Event>,
    > {
        self.auth_asks(player) + if self.stake_result(nft_id) is Ok {
            seq![
                Effect::Transfer {
                    token: self.config->0.nft_contract,
                    from: player,
                    to: contract,
                    amount: 1,
                },
                Effect::Store(DataKey::StakeRecord(nft_id)),
                bumped(DataKey::StakeRecord(nft_id)),
                Effect::Store(DataKey::PlayerStakes(player)),
                bumped(DataKey::PlayerStakes(player)),
                Effect::Store(DataKey::TotalStaked),
                Effect::Publish(Event::NftStaked(NftStaked { player, nft_id })),
            ]
        } else {
            seq![]
        }
    }

    /// Reward-token units that one staked NFT earns in a second.
    pub open spec fn rate(self) -> i128 {
        match self.config {
            Some(config) => config.yield_rate_per_second,
            None => 0,
        }
    }

    /// Seconds since the yield of a stake was last claimed.
    pub open spec fn elapsed(record: StakeRecord, now: u64) -> int {
        if now < record.last_claim_ts {
            0
        } else {
            now - record.last_claim_ts
        }
    }

    /// The yield that a stake has accrued.
    pub open spec fn rewards(self, record: StakeRecord, now: u64) -> Result<i128, Error> {
        let amount = Self::elapsed(record, now) * self.rate();
        if i128::MIN <= amount <= i128::MAX {
            Ok(amount as i128)
        } else {
            Err(Error::Overflow)
        }
    }

    /// Only the owner of a stake is given its yield, and that is all of it.
    pub open spec fn owner_rewards(self, now: u64, player: Address, nft_id: u64) -> Result<
        i128,
        Error,
    > {
        if self.config is None {
            Err(Error::NotInitialized)
        } else if !self.stakes.contains_key(nft_id) {
            Err(Error::NftNotStaked)
        } else if self.stakes[nft_id].owner != player {
            Err(Error::NotOwner)
        } else {
            self.rewards(self.stakes[nft_id], now)
        }
    }

    pub open spec fn after_claim(self, now: u64, player: Address, nft_id: u64) -> Self {
        if self.owner_rewards(now, player, nft_id) is Ok {
            NftStakingState {
                stakes: self.stakes.insert(
                    nft_id,
                    StakeRecord { last_claim_ts: now, ..self.stakes[nft_id] },
                ),
                ..self
            }
        } else {
            self
        }
    }

    /// The payment of yield, if there is any.
    pub open spec fn reward_asks(self, contract: Address, player: Address, rewards: i128) -> Seq<
        Effect<DataKey, Event>,
    > {
        if rewards > 0 {
            seq![
                Effect::Transfer {
                    token: self.config->0.reward_token,
                    from: contract,
                    to: player,
                    amount: rewards,
                },
            ]
        } else {
            seq![]
        }
    }

    pub open spec fn claim_asks(
        self,
        now: u64,
        contract: Address,
        player: Address,
        nft_id: u64,
    ) -> Seq<Effect<DataKey, Event>> {
        self.auth_asks(player) + match self.owner_rewards(now, player, nft_id) {
            Ok(rewards) => seq![
                Effect::Store(DataKey::StakeRecord(nft_id)),
                bumped(DataKey::StakeRecord(nft_id)),
            ] + self.reward_asks(contract, player, rewards) + seq![
                Effect::Publish(Event::RewardsClaimed(RewardsClaimed { player, amount: rewards })),
            ],
            Err(_) => seq![],
        }
    }

    pub open spec fn after_unstake(self, now: u64, player: Address, nft_id: u64) -> Self {
        if self.owner_rewards(now, player, nft_id) is Ok {
            NftStakingState {
                stakes: self.stakes.remove(nft_id),
                player_stakes: self.player_stakes.insert(
                    player,
                    without(self.stakes_of(player), nft_id),
                ),
                total_staked: self.total_staked.saturating_sub(1),
                ..self
            }
        } else {
            self
        }
    }

    /// The NFT goes back to the player, and then the yield.
    pub open spec fn unstake_asks(
        self,
        now: u64,
        contract: Address,
        player: Address,
        nft_id: u64,
    ) -> Seq<Effect<DataKey, Event>> {
        self.auth_asks(player) + match self.owner_rewards(now, player, nft_id) {
            Ok(rewards) => seq![
                Effect::Remove(DataKey::StakeRecord(nft_id)),
                Effect::Store(DataKey::PlayerStakes(player)),
                Effect::Store(DataKey::TotalStaked),
                Effect::Transfer {
                    token: self.config->0.nft_contract,
                    from: contract,
                    to: player,
                    amount: 1,
                },
            ] + self.reward_asks(contract, player, rewards) + seq![
                Effect::Publish(
                    Event::NftUnstaked(NftUnstaked { player, nft_id, rewards_claimed: rewards }),
                ),
            ],
            Err(_) => seq![],
        }
    }

    /// The yield that waits to be claimed on an NFT. It counts as none where
    /// there is no stake, or more of it than can be paid.
    pub open spec fn pending_rewards(self, now: u64, nft_id: u64) -> i128 {
        if self.stakes.contains_key(nft_id) {
            match self.rewards(self.stakes[nft_id], now) {
                Ok(rewards) => rewards,
                Err(_) => 0,
            }
        } else {
            0
        }
    }
}

impl NftStaking {
    /// The contract before `init`.
    pub fn new() -> (staking: Self)
        ensures
            staking@ == NftStakingState::empty(),
    {
        NftStaking {
            config: None,
            stakes: Table::new(),
            player_stakes: Table::new(),
            total_staked: 0,
        }
    }

    pub fn init(
        &mut self,
        env: &mut Env<DataKey, Event>,
        admin: Address,
        nft_contract: Address,
        reward_token: Address,
        yield_rate_per_second: i128,
    ) -> (r: Result<(), Error>)
        ensures
            r is Err ==> final(self)@ == old(self)@,
            r == old(self)@.init_result(
                Config { admin, nft_contract, reward_token, yield_rate_per_second },
            ),
            final(self)@ == old(self)@.after_init(
                Config { admin, nft_contract, reward_token, yield_rate_per_second },
            ),
            final(env).after(
                *old(env),
                old(self)@.init_asks(
                    Config { admin, nft_contract, reward_token, yield_rate_per_second },
                ),
            ),
    {
        if self.config.is_some() {
            return Err(Error::AlreadyInitialized);
        }
        env.require_auth(admin);
        if yield_rate_per_second <= 0 {
            return Err(Error::InvalidAmount);
        }
        self.config = Some(Config { admin, nft_contract, reward_token, yield_rate_per_second });
        env.store(DataKey::Admin);
        env.store(DataKey::NftContract);
        env.store(DataKey::RewardToken);
        env.store(DataKey::YieldRatePerSecond);
        Ok(())
    }

    /// A player stakes an NFT, which goes from the player to the contract.
    pub fn stake(&mut self, env: &mut Env<DataKey, Event>, player: Address, nft_id: u64) -> (r:
        Result<(), Error>)
        ensures
            r is Err ==> final(self)@ == old(self)@,
            r == old(self)@.stake_result(nft_id),
            final(self)@ == old(self)@.after_stake(old(env).timestamp, player, nft_id),
            final(env).after(*old(env), old(self)@.stake_asks(old(env).contract, player, nft_id)),
    {
        let config: Config = match self.config {
            Some(config) => config,
            None => {
                return Err(Error::NotInitialized);
            },
        };
        env.require_auth(player);
        if self.stakes.has(&nft_id) {
            return Err(Error::NftAlreadyStaked);
        }
        let contract: Address = env.contract;
        env.transfer(config.nft_contract, player, contract, 1);

        let now: u64 = env.timestamp;
        self.stakes.set(
            nft_id,
            StakeRecord { owner: player, nft_id, staked_at_ts: now, last_claim_ts: now },
        );
        env.store(DataKey::StakeRecord(nft_id));
        env.bump(DataKey::StakeRecord(nft_id));

        let mut list: Vec<u64> = self.get_player_stakes(player);
        list.push(nft_id);
        self.player_stakes.set(player, list);
        env.store(DataKey::PlayerStakes(player));
        env.bump(DataKey::PlayerStakes(player));

        self.total_staked = self.total_staked.saturating_add(1);
        env.store(DataKey::TotalStaked);
        env.publish(Event::NftStaked(NftStaked { player, nft_id }));
        Ok(())
    }

    /// The yield that a stake has accrued.
    fn compute_rewards(&self, record: &StakeRecord, now: u64) -> (r: Result<i128, Error>)
        ensures
            r == self@.rewards(*record, now),
    {
        let elapsed: i128 = now.saturating_sub(record.last_claim_ts) as i128;
        let rate: i128 = match &self.config {
            Some(config) => config.yield_rate_per_second,
            None => 0,
        };
        match elapsed.checked_mul(rate) {
            Some(rewards) => Ok(rewards),
            None => Err(Error::Overflow),
        }
    }

    /// A player claims the yield of a staked NFT, which stays staked.
    pub fn claim_rewards(
        &mut self,
        env: &mut Env<DataKey, Event>,
        player: Address,
        nft_id: u64,
    ) -> (r: Result<i128, Error>)
        ensures
            r is Err ==> final(self)@ == old(self)@,
            r == old(self)@.owner_rewards(old(env).timestamp, player, nft_id),
            final(self)@ == old(self)@.after_claim(old(env).timestamp, player, nft_id),
            final(env).after(
                *old(env),
                old(self)@.claim_asks(old(env).timestamp, old(env).contract, player, nft_id),
            ),
    {
        let config: Config = match self.config {
            Some(config) => config,
            None => {
                return Err(Error::NotInitialized);
            },
        };
        env.require_auth(player);
        let mut record: StakeRecord = match self.stakes.get(&nft_id) {
            Some(record) => *record,
            None => {
                return Err(Error::NftNotStaked);
            },
        };
        if !record.owner.same(&player) {
            return Err(Error::NotOwner);
        }
        let now: u64 = env.timestamp;
        let rewards: i128 = match self.compute_rewards(&record, now) {
            Ok(rewards) => rewards,
            Err(e) => {
                return Err(e);
            },
        };

        record.last_claim_ts = now;
        self.stakes.set(nft_id, record);
        env.store(DataKey::StakeRecord(nft_id));
        env.bump(DataKey::StakeRecord(nft_id));
        if rewards > 0 {
            let contract: Address = env.contract;
            env.transfer(config.reward_token, contract, player, rewards);
        }
        env.publish(Event::RewardsClaimed(RewardsClaimed { player, amount: rewards }));
        Ok(rewards)
    }

    /// A player takes a staked NFT back, together with the yield that remains.
    pub fn unstake(&mut self, env: &mut Env<DataKey, Event>, player: Address, nft_id: u64) -> (r:
        Result<i128, Error>)
        ensures
            r is Err ==> final(self)@ == old(self)@,
            r == old(self)@.owner_rewards(old(env).timestamp, player, nft_id),
            final(self)@ == old(self)@.after_unstake(old(env).timestamp, player, nft_id),
            final(env).after(
                *old(env),
                old(self)@.unstake_asks(old(env).timestamp, old(env).contract, player, nft_id),
            ),
    {
        let config: Config = match self.config {
            Some(config) => config,
            None => {
                return Err(Error::NotInitialized);
            },
        };
        env.require_auth(player);
        let record: StakeRecord = match self.stakes.get(&nft_id) {
            Some(record) => *record,
            None => {
                return Err(Error::NftNotStaked);
            },
        };
        if !record.owner.same(&player) {
            return Err(Error::NotOwner);
        }
        let now: u64 = env.timestamp;
        let rewards: i128 = match self.compute_rewards(&record, now) {
            Ok(rewards) => rewards,
            Err(e) => {
                return Err(e);
            },
        };

        self.stakes.remove(&nft_id);
        env.remove(DataKey::StakeRecord(nft_id));

        let list: Vec<u64> = self.get_player_stakes(player);
        let mut new_list: Vec<u64> = Vec::new();
        let mut i: usize = 0;
        while i < list.len()
            invariant
                i <= list.len(),
                new_list@ == without(list@.take(i as int), nft_id),
            decreases list.len() - i,
        {
            proof {
                reveal(Seq::filter);
                assert(list@.take(i + 1).drop_last() =~= list@.take(i as int));
            }
            if list[i] != nft_id {
                new_list.push(list[i]);
            }
            i = i + 1;
        }
        assert(list@.take(i as int) =~= list@);
        self.player_stakes.set(player, new_list);
        env.store(DataKey::PlayerStakes(player));

        self.total_staked = self.total_staked.saturating_sub(1);
        env.store(DataKey::TotalStaked);

        let contract: Address = env.contract;
        env.transfer(config.nft_contract, contract, player, 1);
        if rewards > 0 {
            env.transfer(config.reward_token, contract, player, rewards);
        }
        env.publish(Event::NftUnstaked(NftUnstaked { player, nft_id, rewards_claimed: rewards }));
        Ok(rewards)
    }

    pub fn get_stake(&self, nft_id: u64) -> (r: Option<StakeRecord>)
        ensures
            r == if self@.stakes.contains_key(nft_id) {
                Some(self@.stakes[nft_id])
            } else {
                None
            },
    {
        match self.stakes.get(&nft_id) {
            Some(record) => Some(*record),
            None => None,
        }
    }

    pub fn get_player_stakes(&self, player: Address) -> (list: Vec<u64>)
        ensures
            list@ == self@.stakes_of(player),
    {
        match self.player_stakes.get(&player) {
            Some(list) => {
                let copy: Vec<u64> = list.clone();
                assert(copy@ =~= list@);
                copy
            },
            None => Vec::new(),
        }
    }

    pub fn get_pending_rewards(&self, env: &Env<DataKey, Event>, nft_id: u64) -> (rewards: i128)
        ensures
            rewards == self@.pending_rewards(env.timestamp, nft_id),
    {
        match self.stakes.get(&nft_id) {
            Some(record) => match self.compute_rewards(record, env.timestamp) {
                Ok(rewards) => rewards,
                Err(_) => 0,
            },
            None => 0,
        }
    }

    pub fn get_total_staked(&self) -> (total: u32)
        ensures
            total == self@.total_staked,
    {
        self.total_staked
    }
}

/// One call that may change the contract's ledger entries, with its time.
pub enum Call {
    Init { config: Config },
    Stake { now: u64, player: Address, nft_id: u64 },
    ClaimRewards { now: u64, player: Address, nft_id: u64 },
    Unstake { now: u64, player: Address, nft_id: u64 },
}

impl NftStakingState {
    pub open spec fn step(self, call: Call) -> Self {
        match call {
            Call::Init { config } => self.after_init(config),
            Call::Stake { now, player, nft_id } => self.after_stake(now, player, nft_id),
            Call::ClaimRewards { now, player, nft_id } => self.after_claim(now, player, nft_id),
            Call::Unstake { now, player, nft_id } => self.after_unstake(now, player, nft_id),
        }
    }

    /// What becomes of the ledger when calls are made one after the other.
    pub open spec fn run(self, calls: Seq<Call>) -> Self
        decreases calls.len(),
    {
        if calls.len() == 0 {
            self
        } else {
            self.run(calls.drop_last()).step(calls.last())
        }
    }

    /// How often these calls hand an NFT back to its owner.
    pub open spec fn taken_back(self, calls: Seq<Call>, nft: u64) -> nat
        decreases calls.len(),
    {
        if calls.len() == 0 {
            0
        } else {
            let before = self.taken_back(calls.drop_last(), nft);
            match calls.last() {
                Call::Unstake { now, player, nft_id } => if nft_id == nft && self.run(
                    calls.drop_last(),
                ).owner_rewards(now, player, nft_id) is Ok {
                    before + 1
                } else {
                    before
                },
                _ => before,
            }
        }
    }

    /// The yield that one call gives on an NFT.
    pub open spec fn yield_of(self, call: Call, nft: u64) -> int {
        match call {
            Call::ClaimRewards { now, player, nft_id } | Call::Unstake { now, player, nft_id } => {
                match self.owner_rewards(now, player, nft_id) {
                    Ok(rewards) => if nft_id == nft {
                        rewards as int
                    } else {
                        0
                    },
                    Err(_) => 0,
                }
            },
            _ => 0,
        }
    }

    /// The yield that these calls give on an NFT.
    pub open spec fn yield_given(self, calls: Seq<Call>, nft: u64) -> int
        decreases calls.len(),
    {
        if calls.len() == 0 {
            0
        } else {
            self.yield_given(calls.drop_last(), nft) + self.run(calls.drop_last()).yield_of(
                calls.last(),
                nft,
            )
        }
    }

    /// The call does not claim yield on an NFT at a time before the last claim.
    pub open spec fn in_order(self, call: Call, nft: u64) -> bool {
        call matches Call::ClaimRewards { now, player, nft_id } ==> (nft_id == nft
            && self.owner_rewards(now, player, nft_id) is Ok ==> self.stakes[nft].last_claim_ts
            <= now)
    }

    /// Every stake stands under its own NFT, and the list of each player holds
    /// the NFTs that they have staked, each once, and no others.
    pub open spec fn lists_agree(self) -> bool {
        &&& forall|nft_id: u64| #[trigger]
            self.stakes.contains_key(nft_id) ==> self.stakes[nft_id].nft_id == nft_id
        &&& forall|player: Address| (#[trigger] self.stakes_of(player)).no_duplicates()
        &&& forall|player: Address, nft_id: u64| #[trigger]
            self.stakes_of(player).contains(nft_id) <==> self.stakes.contains_key(nft_id)
                && self.stakes[nft_id].owner == player
    }
}

/// A contract is set up once: its admin, contracts and rate stay what they
/// are, and setting it up again is refused.
pub proof fn law_set_up_once(s: NftStakingState, calls: Seq<Call>, config: Config)
    requires
        s.config is Some,
    ensures
        s.run(calls).config == s.config,
        s.run(calls).init_result(config) == Err::<(), Error>(Error::AlreadyInitialized),
    decreases calls.len(),
{
    if calls.len() > 0 {
        law_set_up_once(s, calls.drop_last(), config);
    }
}

proof fn lemma_without(list: Seq<u64>, nft_id: u64)
    requires
        list.no_duplicates(),
    ensures
        without(list, nft_id).no_duplicates(),
        forall|id: u64| #[trigger]
            without(list, nft_id).contains(id) <==> list.contains(id) && id != nft_id,
    decreases list.len(),
{
    reveal(Seq::filter);
    if list.len() > 0 {
        let front = list.drop_last();
        lemma_without(front, nft_id);
        let kept = without(front, nft_id);
        let all = without(list, nft_id);
        assert forall|id: u64| list.contains(id) <==> front.contains(id) || id == list.last() by {
            if list.contains(id) && id != list.last() {
                let i = choose|i: int| 0 <= i < list.len() && list[i] == id;
                assert(front[i] == id);
            }
            if front.contains(id) {
                let i = choose|i: int| 0 <= i < front.len() && front[i] == id;
                assert(list[i] == id);
            }
            assert(list[list.len() - 1] == list.last());
        }
        assert(!front.contains(list.last()));
        if list.last() != nft_id {
            assert(all == kept.push(list.last()));
            assert(!kept.contains(list.last()));
            assert forall|id: u64| all.contains(id) <==> kept.contains(id) || id == list.last() by {
                if kept.contains(id) {
                    let i = choose|i: int| 0 <= i < kept.len() && kept[i] == id;
                    assert(all[i] == id);
                }
                assert(all[kept.len() as int] == list.last());
            }
        }
    }
}

proof fn lemma_without_absent(list: Seq<u64>, nft_id: u64)
    requires
        !list.contains(nft_id),
    ensures
        without(list, nft_id) == list,
    decreases list.len(),
{
    reveal(Seq::filter);
    if list.len() > 0 {
        assert forall|i: int| 0 <= i < list.drop_last().len() implies list.drop_last()[i]
            != nft_id by {
            assert(list[i] == list.drop_last()[i]);
        }
        assert(list[list.len() - 1] == list.last());
        lemma_without_absent(list.drop_last(), nft_id);
        assert(list.drop_last().push(list.last()) =~= list);
    }
}

proof fn lemma_push_contains(list: Seq<u64>, nft_id: u64)
    ensures
        forall|id: u64| #[trigger]
            list.push(nft_id).contains(id) <==> list.contains(id) || id == nft_id,
        list.no_duplicates() && !list.contains(nft_id) ==> list.push(nft_id).no_duplicates(),
{
    let all = list.push(nft_id);
    assert forall|id: u64| #[trigger] all.contains(id) <==> list.contains(id) || id == nft_id by {
        if list.contains(id) {
            let i = choose|i: int| 0 <= i < list.len() && list[i] == id;
            assert(all[i] == id);
        }
        assert(all[list.len() as int] == nft_id);
    }
}

proof fn lemma_step_agrees(s: NftStakingState, call: Call)
    requires
        s.lists_agree(),
    ensures
        s.step(call).lists_agree(),
{
    let t = s.step(call);
    match call {
        Call::Init { config } => {
            assert forall|player: Address| t.stakes_of(player) == s.stakes_of(player) by {}
        },
        Call::Stake { now, player, nft_id } => {
            if s.stake_result(nft_id) is Ok {
                let list = s.stakes_of(player);
                lemma_push_contains(list, nft_id);
                assert forall|p: Address| #[trigger]
                    t.stakes_of(p) == if p == player {
                        list.push(nft_id)
                    } else {
                        s.stakes_of(p)
                    } by {}
                assert(!list.contains(nft_id));
                assert forall|p: Address, id: u64| #[trigger]
                    t.stakes_of(p).contains(id) <==> t.stakes.contains_key(id)
                        && t.stakes[id].owner == p by {
                    assert(s.stakes_of(p).contains(id) <==> s.stakes.contains_key(id)
                        && s.stakes[id].owner == p);
                }
            }
        },
        Call::ClaimRewards { now, player, nft_id } => {
            assert forall|p: Address| #[trigger] t.stakes_of(p) == s.stakes_of(p) by {}
            assert forall|p: Address, id: u64| #[trigger]
                t.stakes_of(p).contains(id) <==> t.stakes.contains_key(id) && t.stakes[id].owner
                    == p by {
                assert(s.stakes_of(p).contains(id) <==> s.stakes.contains_key(id)
                    && s.stakes[id].owner == p);
            }
        },
        Call::Unstake { now, player, nft_id } => {
            if s.owner_rewards(now, player, nft_id) is Ok {
                let list = s.stakes_of(player);
                lemma_without(list, nft_id);
                assert forall|p: Address| #[trigger]
                    t.stakes_of(p) == if p == player {
                        without(list, nft_id)
                    } else {
                        s.stakes_of(p)
                    } by {}
                assert forall|p: Address, id: u64| #[trigger]
                    t.stakes_of(p).contains(id) <==> t.stakes.contains_key(id)
                        && t.stakes[id].owner == p by {
                    assert(s.stakes_of(p).contains(id) <==> s.stakes.contains_key(id)
                        && s.stakes[id].owner == p);
                }
            }
        },
    }
}

/// From an empty ledger, whatever calls are made, the list of each player
/// holds exactly the NFTs that they have staked.
pub proof fn law_lists_agree(calls: Seq<Call>)
    ensures
        NftStakingState::empty().run(calls).lists_agree(),
    decreases calls.len(),
{
    if calls.len() > 0 {
        law_lists_agree(calls.drop_last());
        lemma_step_agrees(NftStakingState::empty().run(calls.drop_last()), calls.last());
    }
}

/// From an empty ledger, the total is the number of staked NFTs, as long as
/// that number never goes past what the total can count to.
pub proof fn law_total_counts_stakes(calls: Seq<Call>)
    requires
        forall|n: int|
            0 <= n <= calls.len() ==> (#[trigger] NftStakingState::empty().run(
                calls.take(n),
            )).stakes.len() <= u32::MAX,
    ensures
        NftStakingState::empty().run(calls).stakes.dom().finite(),
        NftStakingState::empty().run(calls).total_staked == NftStakingState::empty().run(
            calls,
        ).stakes.len(),
    decreases calls.len(),
{
    let empty = NftStakingState::empty();
    if calls.len() > 0 {
        let front = calls.drop_last();
        assert forall|n: int| 0 <= n <= front.len() implies (#[trigger] empty.run(
            front.take(n),
        )).stakes.len() <= u32::MAX by {
            assert(front.take(n) =~= calls.take(n));
        }
        law_total_counts_stakes(front);
        assert(calls.take(calls.len() as int) =~= calls);
        assert(empty.run(calls.take(calls.len() as int)).stakes.len() <= u32::MAX);
        let s = empty.run(front);
        let t = empty.run(calls);
        match calls.last() {
            Call::ClaimRewards { now, player, nft_id } => {
                assert(t.stakes.dom() =~= s.stakes.dom());
            },
            _ => {},
        }
    }
}

/// While an NFT is staked nobody can stake it again, and it stays staked by
/// its owner until the owner takes it back.
pub proof fn law_owner_keeps_stake(
    s: NftStakingState,
    calls: Seq<Call>,
    owner: Address,
    nft_id: u64,
)
    requires
        s.config is Some,
        s.stakes.contains_key(nft_id),
        s.stakes[nft_id].owner == owner,
        s.taken_back(calls, nft_id) == 0,
    ensures
        s.run(calls).stakes.contains_key(nft_id),
        s.run(calls).stakes[nft_id].owner == owner,
        s.run(calls).stake_result(nft_id) == Err::<(), Error>(Error::NftAlreadyStaked),
        forall|now: u64, other: Address|
            other != owner ==> #[trigger] s.run(calls).owner_rewards(now, other, nft_id) == Err::<
                i128,
                Error,
            >(Error::NotOwner),
    decreases calls.len(),
{
    if calls.len() > 0 {
        law_owner_keeps_stake(s, calls.drop_last(), owner, nft_id);
    }
}

/// Taking an NFT back undoes staking it: the player's list and the stakes are
/// what they were.
pub proof fn law_unstake_undoes_stake(
    s: NftStakingState,
    player: Address,
    nft_id: u64,
    staked: u64,
    unstaked: u64,
)
    requires
        s.lists_agree(),
        s.stake_result(nft_id) is Ok,
        s.after_stake(staked, player, nft_id).owner_rewards(unstaked, player, nft_id) is Ok,
    ensures
        s.after_stake(staked, player, nft_id).after_unstake(unstaked, player, nft_id).stakes
            == s.stakes,
        forall|p: Address| #[trigger]
            s.after_stake(staked, player, nft_id).after_unstake(
                unstaked,
                player,
                nft_id,
            ).stakes_of(p) == s.stakes_of(p),
        s.total_staked < u32::MAX ==> s.after_stake(staked, player, nft_id).after_unstake(
            unstaked,
            player,
            nft_id,
        ).total_staked == s.total_staked,
{
    let list = s.stakes_of(player);
    let mid = s.after_stake(staked, player, nft_id);
    let end = mid.after_unstake(unstaked, player, nft_id);
    assert(end.stakes =~= s.stakes);
    assert(mid.stakes_of(player) == list.push(nft_id));
    assert(!list.contains(nft_id));
    reveal(Seq::filter);
    assert(list.push(nft_id).drop_last() =~= list);
    lemma_without_absent(list, nft_id);
    assert(without(list.push(nft_id), nft_id) == list);
}

/// Claiming on the way costs nothing: what is claimed before and what is
/// claimed after add up to what one claim would have given, and right after a
/// claim there is nothing left.
pub proof fn law_yield_adds_up(
    s: NftStakingState,
    player: Address,
    nft_id: u64,
    first: u64,
    second: u64,
)
    requires
        s.owner_rewards(first, player, nft_id) is Ok,
        s.owner_rewards(second, player, nft_id) is Ok,
        s.stakes[nft_id].last_claim_ts <= first <= second,
    ensures
        s.after_claim(first, player, nft_id).owner_rewards(second, player, nft_id) is Ok,
        s.owner_rewards(first, player, nft_id)->Ok_0 + s.after_claim(
            first,
            player,
            nft_id,
        ).owner_rewards(second, player, nft_id)->Ok_0 == s.owner_rewards(
            second,
            player,
            nft_id,
        )->Ok_0,
        s.after_claim(first, player, nft_id).pending_rewards(first, nft_id) == 0,
{
    let record = s.stakes[nft_id];
    let before = first - record.last_claim_ts;
    let after = second - first;
    let rate = s.rate() as int;
    assert((before + after) * rate == before * rate + after * rate) by (nonlinear_arith);
    assert(0 <= before <= before + after && 0 <= after <= before + after ==> (
    (rate >= 0 ==> 0 <= after * rate <= (before + after) * rate) && (rate < 0 ==> (before + after)
        * rate <= after * rate <= 0))) by (nonlinear_arith);
    assert(0 * rate == 0) by (nonlinear_arith);
}

/// One call that leaves an NFT staked gives the yield of the time by which it
/// moves the last claim.
proof fn lemma_yield_of_step(t: NftStakingState, call: Call, owner: Address, nft_id: u64)
    requires
        t.config is Some,
        t.stakes.contains_key(nft_id),
        t.stakes[nft_id].owner == owner,
        t.step(call).stakes.contains_key(nft_id),
        t.in_order(call, nft_id),
    ensures
        t.stakes[nft_id].last_claim_ts <= t.step(call).stakes[nft_id].last_claim_ts,
        t.yield_of(call, nft_id) == (t.step(call).stakes[nft_id].last_claim_ts
            - t.stakes[nft_id].last_claim_ts) * t.rate(),
{
    assert(0 * t.rate() == 0);
    match call {
        Call::ClaimRewards { now, player, nft_id: id } => {
            if id == nft_id && t.owner_rewards(now, player, id) is Ok {
                assert(t.step(call).stakes[nft_id].last_claim_ts == now);
                assert(NftStakingState::elapsed(t.stakes[nft_id], now) == now
                    - t.stakes[nft_id].last_claim_ts);
            }
        },
        Call::Unstake { now, player, nft_id: id } => {
            if id == nft_id {
                assert(t.owner_rewards(now, player, id) is Err);
            }
        },
        _ => {},
    }
}

/// However often the owner claims on the way, and whatever else is called, the
/// claims and the closing unstake together give the yield of the whole time
/// from the last claim before them to the end, as long as time does not run
/// backwards. The closing unstake succeeds if that yield can be counted.
pub proof fn law_yield_of_the_whole_time(
    s: NftStakingState,
    calls: Seq<Call>,
    owner: Address,
    nft_id: u64,
    end: u64,
)
    requires
        s.config is Some,
        s.stakes.contains_key(nft_id),
        s.stakes[nft_id].owner == owner,
        s.taken_back(calls, nft_id) == 0,
        forall|n: int|
            0 <= n < calls.len() ==> s.run(#[trigger] calls.take(n)).in_order(calls[n], nft_id),
        s.run(calls).stakes[nft_id].last_claim_ts <= end,
    ensures
        s.stakes[nft_id].last_claim_ts <= s.run(calls).stakes[nft_id].last_claim_ts,
        s.yield_given(calls, nft_id) == (s.run(calls).stakes[nft_id].last_claim_ts
            - s.stakes[nft_id].last_claim_ts) * s.rate(),
        s.run(calls).owner_rewards(end, owner, nft_id) is Ok ==> s.yield_given(
            calls.push(Call::Unstake { now: end, player: owner, nft_id }),
            nft_id,
        ) == (end - s.stakes[nft_id].last_claim_ts) * s.rate(),
        0 <= s.rate() && (end - s.stakes[nft_id].last_claim_ts) * s.rate() <= i128::MAX ==> s.run(
            calls,
        ).owner_rewards(end, owner, nft_id) is Ok,
    decreases calls.len(),
{
    let start = s.stakes[nft_id].last_claim_ts as int;
    let last = s.run(calls).stakes[nft_id].last_claim_ts as int;
    let rate = s.rate() as int;
    law_owner_keeps_stake(s, calls, owner, nft_id);
    law_set_up_once(s, calls, s.config->0);
    if calls.len() > 0 {
        let front = calls.drop_last();
        let t = s.run(front);
        law_owner_keeps_stake(s, front, owner, nft_id);
        law_set_up_once(s, front, s.config->0);
        assert(calls.take(calls.len() - 1) =~= front);
        assert(t.in_order(calls[calls.len() - 1], nft_id));
        assert forall|n: int| 0 <= n < front.len() implies s.run(
            #[trigger] front.take(n),
        ).in_order(front[n], nft_id) by {
            assert(front.take(n) =~= calls.take(n));
            assert(front[n] == calls[n]);
        }
        let middle = t.stakes[nft_id].last_claim_ts as int;
        law_yield_of_the_whole_time(s, front, owner, nft_id, middle as u64);
        lemma_yield_of_step(t, calls.last(), owner, nft_id);
        assert(t.rate() == rate);
        assert((last - middle) * rate + (middle - start) * rate == (last - start) * rate)
            by (nonlinear_arith);
    } else {
        assert(0 * rate == 0);
    }
    let all = calls.push(Call::Unstake { now: end, player: owner, nft_id });
    assert(all.drop_last() =~= calls);
    assert((end - last) * rate + (last - start) * rate == (end - start) * rate)
        by (nonlinear_arith);
    if s.run(calls).owner_rewards(end, owner, nft_id) is Ok {
        assert(all.last() == Call::Unstake { now: end, player: owner, nft_id });
        assert(s.run(calls).yield_of(all.last(), nft_id) == (end - last) * rate);
        assert(s.yield_given(all, nft_id) == s.yield_given(calls, nft_id) + s.run(calls).yield_of(
            all.last(),
            nft_id,
        ));
    }
    assert(rate >= 0 ==> 0 <= (end - last) * rate <= (end - start) * rate) by (nonlinear_arith)
        requires
            start <= last <= end,
    ;
}

/// An NFT is staked, its yield claimed and the NFT taken back only with the
/// player's own authorisation.
pub proof fn law_player_authorises(
    s: NftStakingState,
    now: u64,
    contract: Address,
    player: Address,
    nft_id: u64,
)
    ensures
        s.stake_result(nft_id) is Ok ==> s.stake_asks(contract, player, nft_id)[0] == Effect::<
            DataKey,
            Event,
        >::RequireAuth(player),
        s.owner_rewards(now, player, nft_id) is Ok ==> s.claim_asks(
            now,
            contract,
            player,
            nft_id,
        )[0] == Effect::<DataKey, Event>::RequireAuth(player),
        s.owner_rewards(now, player, nft_id) is Ok ==> s.unstake_asks(
            now,
            contract,
            player,
            nft_id,
        )[0] == Effect::<DataKey, Event>::RequireAuth(player),
{
}

/// Before anything is called the ledger holds nothing.
pub proof fn law_starts_empty()
    ensures
        NftStakingState::empty().config is None,
        NftStakingState::empty().stakes == Map::<u64, StakeRecord>::empty(),
        NftStakingState::empty().player_stakes == Map::<Address, Seq<u64>>::empty(),
        NftStakingState::empty().total_staked == 0,
{
}

/// Nobody is asked for an authorisation before the contract is set up. From
/// then on the caller is.
pub proof fn law_caller_is_asked(s: NftStakingState, caller: Address)
    ensures
        s.config is None ==> s.auth_asks(caller) == Seq::<Effect<DataKey, Event>>::empty(),
        s.config is Some ==> s.auth_asks(caller) =~= seq![Effect::RequireAuth(caller)],
{
}

/// A contract that is not set up yet is set up as asked if the policy is valid: what `init`
/// was given is written, nothing else changes, and the admin is asked for.
/// Otherwise nothing is written.
pub proof fn law_init_sets_up(s: NftStakingState, config: Config)
    ensures
        s.config is None && config.yield_rate_per_second > 0 ==> {
            &&& s.init_result(config) == Ok::<(), Error>(())
            &&& s.after_init(config) == (NftStakingState { config: Some(config), ..s })
            &&& s.init_asks(config) =~= seq![
                Effect::RequireAuth(config.admin),
                Effect::Store(DataKey::Admin),
                Effect::Store(DataKey::NftContract),
                Effect::Store(DataKey::RewardToken),
                Effect::Store(DataKey::YieldRatePerSecond),
            ]
        },
        s.config is Some ==> {
            &&& s.init_result(config) == Err::<(), Error>(Error::AlreadyInitialized)
            &&& s.after_init(config) == s
            &&& s.init_asks(config) =~= Seq::<Effect<DataKey, Event>>::empty()
        },
        s.config is None && !(config.yield_rate_per_second > 0) ==> {
            &&& s.init_result(config) == Err::<(), Error>(Error::InvalidAmount)
            &&& s.after_init(config) == s
            &&& s.init_asks(config) =~= seq![Effect::RequireAuth(config.admin)]
        },
{
}

/// Taking an NFT off a list leaves all others on it, in their order.
pub proof fn law_without(list: Seq<u64>, last: u64, nft_id: u64)
    ensures
        without(Seq::<u64>::empty(), nft_id) == Seq::<u64>::empty(),
        last != nft_id ==> without(list.push(last), nft_id) == without(list, nft_id).push(last),
        without(list.push(nft_id), nft_id) == without(list, nft_id),
{
    reveal(Seq::filter);
    assert(list.push(last).drop_last() =~= list);
    assert(list.push(nft_id).drop_last() =~= list);
}

/// Everybody may stake an NFT that is not staked: it goes to the contract as
/// one unit, stands under the player from now on, and is added to the end of
/// their list. `list` is what they had staked before.
pub proof fn law_free_nft_can_be_staked(
    s: NftStakingState,
    now: u64,
    contract: Address,
    player: Address,
    nft_id: u64,
    list: Seq<u64>,
    total: u32,
)
    requires
        s.config is Some,
        !s.stakes.contains_key(nft_id),
        s.player_stakes.contains_key(player) ==> list == s.player_stakes[player],
        !s.player_stakes.contains_key(player) ==> list == Seq::<u64>::empty(),
        s.total_staked < u32::MAX ==> total == s.total_staked + 1,
        s.total_staked == u32::MAX ==> total == u32::MAX,
    ensures
        s.stake_result(nft_id) == Ok::<(), Error>(()),
        s.after_stake(now, player, nft_id) == (NftStakingState {
            stakes: s.stakes.insert(
                nft_id,
                StakeRecord { owner: player, nft_id, staked_at_ts: now, last_claim_ts: now },
            ),
            player_stakes: s.player_stakes.insert(player, list.push(nft_id)),
            total_staked: total,
            ..s
        }),
        s.stake_asks(contract, player, nft_id) =~= seq![
            Effect::RequireAuth(player),
            Effect::Transfer {
                token: s.config->0.nft_contract,
                from: player,
                to: contract,
                amount: 1,
            },
            Effect::Store(DataKey::StakeRecord(nft_id)),
            Effect::ExtendTtl {
                key: DataKey::StakeRecord(nft_id),
                threshold: 518_400,
                extend_to: 518_400,
            },
            Effect::Store(DataKey::PlayerStakes(player)),
            Effect::ExtendTtl {
                key: DataKey::PlayerStakes(player),
                threshold: 518_400,
                extend_to: 518_400,
            },
            Effect::Store(DataKey::TotalStaked),
            Effect::Publish(Event::NftStaked(NftStaked { player, nft_id })),
        ],
{
}

/// Staking is refused only where there is no contract or the NFT is staked.
pub proof fn law_staked_nft_is_refused(
    s: NftStakingState,
    now: u64,
    contract: Address,
    player: Address,
    nft_id: u64,
)
    ensures
        s.config is None ==> s.stake_result(nft_id) == Err::<(), Error>(Error::NotInitialized)
            && s.stake_asks(contract, player, nft_id) =~= Seq::<Effect<DataKey, Event>>::empty(),
        s.config is Some && s.stakes.contains_key(nft_id) ==> s.stake_result(nft_id) == Err::<
            (),
            Error,
        >(Error::NftAlreadyStaked) && s.stake_asks(contract, player, nft_id) =~= seq![
            Effect::RequireAuth(player),
        ],
        s.stake_result(nft_id) is Err ==> s.after_stake(now, player, nft_id) == s,
{
}

/// The owner of a stake is owed the rate for every second since the last
/// claim, and nobody else is owed anything. It is refused only if that is too
/// large to count.
pub proof fn law_owner_is_owed_yield(
    s: NftStakingState,
    now: u64,
    player: Address,
    nft_id: u64,
    amount: int,
)
    requires
        now >= s.stakes[nft_id].last_claim_ts ==> amount == (now - s.stakes[nft_id].last_claim_ts)
            * s.config->0.yield_rate_per_second,
        now < s.stakes[nft_id].last_claim_ts ==> amount == 0,
    ensures
        s.config is None ==> s.owner_rewards(now, player, nft_id) == Err::<i128, Error>(
            Error::NotInitialized,
        ),
        s.config is Some && !s.stakes.contains_key(nft_id) ==> s.owner_rewards(now, player, nft_id)
            == Err::<i128, Error>(Error::NftNotStaked),
        s.config is Some && s.stakes.contains_key(nft_id) && s.stakes[nft_id].owner != player
            ==> s.owner_rewards(now, player, nft_id) == Err::<i128, Error>(Error::NotOwner),
        s.config is Some && s.stakes.contains_key(nft_id) && s.stakes[nft_id].owner == player
            && i128::MIN <= amount <= i128::MAX ==> s.owner_rewards(now, player, nft_id) == Ok::<
            i128,
            Error,
        >(amount as i128) && s.pending_rewards(now, nft_id) == amount,
        s.config is Some && s.stakes.contains_key(nft_id) && s.stakes[nft_id].owner == player
            && !(i128::MIN <= amount <= i128::MAX) ==> s.owner_rewards(now, player, nft_id)
            == Err::<i128, Error>(Error::Overflow) && s.pending_rewards(now, nft_id) == 0,
        !s.stakes.contains_key(nft_id) || s.config is None ==> s.pending_rewards(now, nft_id) == 0,
{
    let rate = s.rate() as int;
    assert(0 * rate == 0);
}

/// A claim notes its time on the stake and changes nothing else. Taking an NFT
/// back removes its stake, takes it off the owner's list and counts it out.
/// What is refused changes nothing.
pub proof fn law_claim_and_unstake_change_one_stake(
    s: NftStakingState,
    now: u64,
    player: Address,
    nft_id: u64,
    list: Seq<u64>,
    total: u32,
)
    requires
        s.player_stakes.contains_key(player) ==> list == s.player_stakes[player],
        !s.player_stakes.contains_key(player) ==> list == Seq::<u64>::empty(),
        s.total_staked > 0 ==> total == s.total_staked - 1,
        s.total_staked == 0 ==> total == 0,
    ensures
        s.owner_rewards(now, player, nft_id) is Ok ==> {
            &&& s.after_claim(now, player, nft_id) == (NftStakingState {
                stakes: s.stakes.insert(
                    nft_id,
                    StakeRecord { last_claim_ts: now, ..s.stakes[nft_id] },
                ),
                ..s
            })
            &&& s.after_unstake(now, player, nft_id) == (NftStakingState {
                stakes: s.stakes.remove(nft_id),
                player_stakes: s.player_stakes.insert(player, without(list, nft_id)),
                total_staked: total,
                ..s
            })
        },
        s.owner_rewards(now, player, nft_id) is Err ==> s.after_claim(now, player, nft_id) == s
            && s.after_unstake(now, player, nft_id) == s,
{
}

/// What a player has staked is the list that was written for them.
pub proof fn law_list_is_what_was_written(s: NftStakingState, player: Address)
    ensures
        s.player_stakes.contains_key(player) ==> s.stakes_of(player) == s.player_stakes[player],
        !s.player_stakes.contains_key(player) ==> s.stakes_of(player) == Seq::<u64>::empty(),
{
}

/// Whenever a claim or an unstake gives some yield, the units of the reward
/// token that move from the contract to the player are exactly that yield. An
/// unstake also moves the NFT, as one unit of the NFT contract's token. What
/// is refused moves nothing.
pub proof fn law_yield_is_moved(
    s: NftStakingState,
    now: u64,
    contract: Address,
    player: Address,
    nft_id: u64,
)
    requires
        s.config is Some ==> s.config->0.yield_rate_per_second > 0,
    ensures
        match s.owner_rewards(now, player, nft_id) {
            Ok(rewards) => {
                &&& rewards >= 0
                &&& moved(
                    s.claim_asks(now, contract, player, nft_id),
                    s.config->0.reward_token,
                    contract,
                    player,
                ) == rewards
                &&& s.config->0.nft_contract != s.config->0.reward_token ==> moved(
                    s.unstake_asks(now, contract, player, nft_id),
                    s.config->0.reward_token,
                    contract,
                    player,
                ) == rewards && moved(
                    s.unstake_asks(now, contract, player, nft_id),
                    s.config->0.nft_contract,
                    contract,
                    player,
                ) == 1
                &&& s.config->0.nft_contract == s.config->0.reward_token ==> moved(
                    s.unstake_asks(now, contract, player, nft_id),
                    s.config->0.reward_token,
                    contract,
                    player,
                ) == rewards + 1
            },
            Err(_) => {
                &&& s.config is Some ==> s.claim_asks(now, contract, player, nft_id) =~= seq![
                    Effect::RequireAuth(player),
                ] && s.unstake_asks(now, contract, player, nft_id) =~= seq![
                    Effect::RequireAuth(player),
                ]
                &&& s.config is None ==> s.claim_asks(now, contract, player, nft_id) =~= Seq::<
                    Effect<DataKey, Event>,
                >::empty() && s.unstake_asks(now, contract, player, nft_id) =~= Seq::<
                    Effect<DataKey, Event>,
                >::empty()
            },
        },
{
    let rate = s.rate() as int;
    let elapsed = NftStakingState::elapsed(s.stakes[nft_id], now);
    assert(rate > 0 && elapsed >= 0 ==> elapsed * rate >= 0) by (nonlinear_arith);
    if let Ok(rewards) = s.owner_rewards(now, player, nft_id) {
        law_claim_and_unstake_requests(s, now, contract, player, nft_id);
        reveal_with_fuel(moved, 9);
    }
}

/// Every request of a claim and of an unstake, in order. The transfer of yield
/// is left out only where there is none.
pub proof fn law_claim_and_unstake_requests(
    s: NftStakingState,
    now: u64,
    contract: Address,
    player: Address,
    nft_id: u64,
)
    requires
        s.owner_rewards(now, player, nft_id) is Ok,
    ensures
        ({
            let rewards = s.owner_rewards(now, player, nft_id)->Ok_0;
            let nft = Effect::<DataKey, Event>::Transfer {
                token: s.config->0.nft_contract,
                from: contract,
                to: player,
                amount: 1,
            };
            let payment = Effect::<DataKey, Event>::Transfer {
                token: s.config->0.reward_token,
                from: contract,
                to: player,
                amount: rewards,
            };
            let claimed = Effect::<DataKey, Event>::Publish(
                Event::RewardsClaimed(RewardsClaimed { player, amount: rewards }),
            );
            let unstaked = Effect::<DataKey, Event>::Publish(
                Event::NftUnstaked(NftUnstaked { player, nft_id, rewards_claimed: rewards }),
            );
            let kept = Effect::<DataKey, Event>::ExtendTtl {
                key: DataKey::StakeRecord(nft_id),
                threshold: 518_400,
                extend_to: 518_400,
            };
            &&& rewards > 0 ==> s.claim_asks(now, contract, player, nft_id) =~= seq![
                Effect::RequireAuth(player),
                Effect::Store(DataKey::StakeRecord(nft_id)),
                kept,
                payment,
                claimed,
            ]
            &&& rewards <= 0 ==> s.claim_asks(now, contract, player, nft_id) =~= seq![
                Effect::RequireAuth(player),
                Effect::Store(DataKey::StakeRecord(nft_id)),
                kept,
                claimed,
            ]
            &&& rewards > 0 ==> s.unstake_asks(now, contract, player, nft_id) =~= seq![
                Effect::RequireAuth(player),
                Effect::Remove(DataKey::StakeRecord(nft_id)),
                Effect::Store(DataKey::PlayerStakes(player)),
                Effect::Store(DataKey::TotalStaked),
                nft,
                payment,
                unstaked,
            ]
            &&& rewards <= 0 ==> s.unstake_asks(now, contract, player, nft_id) =~= seq![
                Effect::RequireAuth(player),
                Effect::Remove(DataKey::StakeRecord(nft_id)),
                Effect::Store(DataKey::PlayerStakes(player)),
                Effect::Store(DataKey::TotalStaked),
                nft,
                unstaked,
            ]
        }),
{
}

/// From an empty ledger, whatever calls are made, yield accrues at a rate
/// above zero.
pub proof fn law_rate_positive(calls: Seq<Call>)
    ensures
        NftStakingState::empty().run(calls).config is Some ==> NftStakingState::empty().run(
            calls,
        ).config->0.yield_rate_per_second > 0,
    decreases calls.len(),
{
    if calls.len() > 0 {
        law_rate_positive(calls.drop_last());
    }
}

impl NftStakingState {
    /// The units of the reward token that one call on an NFT moves from the
    /// contract to the caller, apart from the NFT itself.
    pub open spec fn paid_by(self, call: Call, contract: Address, nft: u64) -> int {
        match call {
            Call::ClaimRewards { now, player, nft_id } => if nft_id == nft {
                moved(
                    self.claim_asks(now, contract, player, nft_id),
                    self.config->0.reward_token,
                    contract,
                    player,
                )
            } else {
                0
            },
            Call::Unstake { now, player, nft_id } => if nft_id == nft {
                moved(
                    self.unstake_asks(now, contract, player, nft_id),
                    self.config->0.reward_token,
                    contract,
                    player,
                )
            } else {
                0
            },
            _ => 0,
        }
    }

    /// The units of the reward token that these calls move on an NFT.
    pub open spec fn paid_on(self, calls: Seq<Call>, contract: Address, nft: u64) -> int
        decreases calls.len(),
    {
        if calls.len() == 0 {
            0
        } else {
            self.paid_on(calls.drop_last(), contract, nft) + self.run(calls.drop_last()).paid_by(
                calls.last(),
                contract,
                nft,
            )
        }
    }
}

/// Over any calls, what the transfers pay on an NFT is the yield that was
/// given on it.
pub proof fn law_given_yield_is_paid(
    s: NftStakingState,
    calls: Seq<Call>,
    contract: Address,
    nft_id: u64,
)
    requires
        s.config is Some,
        s.config->0.yield_rate_per_second > 0,
        s.config->0.nft_contract != s.config->0.reward_token,
    ensures
        s.paid_on(calls, contract, nft_id) == s.yield_given(calls, nft_id),
    decreases calls.len(),
{
    if calls.len() > 0 {
        let front = calls.drop_last();
        law_given_yield_is_paid(s, front, contract, nft_id);
        law_set_up_once(s, front, s.config->0);
        let t = s.run(front);
        match calls.last() {
            Call::ClaimRewards { now, player, nft_id: id } => {
                law_yield_is_moved(t, now, contract, player, id);
                reveal_with_fuel(moved, 2);
            },
            Call::Unstake { now, player, nft_id: id } => {
                law_yield_is_moved(t, now, contract, player, id);
                reveal_with_fuel(moved, 2);
            },
            _ => {},
        }
    }
}

} // verus!
