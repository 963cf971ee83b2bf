use stellarcade::address::Address;
use stellarcade::env::{Effect, Env, PERSISTENT_BUMP_LEDGERS};
use stellarcade::nft_staking::{
    DataKey, Error, Event, NftStaked, NftStaking, NftUnstaked, RewardsClaimed, StakeRecord,
};

fn account(n: u8) -> Address {
    Address::Account([n; 32])
}

fn contract() -> Address {
    Address::Contract([0; 32])
}

fn host(now: u64) -> Env<DataKey, Event> {
    Env::new(now, contract())
}

fn bump(key: DataKey) -> Effect<DataKey, Event> {
    Effect::ExtendTtl {
        key,
        threshold: PERSISTENT_BUMP_LEDGERS,
        extend_to: PERSISTENT_BUMP_LEDGERS,
    }
}

const ADMIN: u8 = 1;
const NFT: u8 = 2;
const REWARD: u8 = 3;
const PLAYER: u8 = 4;

fn staking(rate: i128) -> NftStaking {
    let mut staking = NftStaking::new();
    assert_eq!(
        staking.init(&mut host(0), account(ADMIN), account(NFT), account(REWARD), rate),
        Ok(())
    );
    staking
}

#[test]
fn init_stores_config() {
    let mut staking = NftStaking::new();
    let admin = account(ADMIN);
    let nft = account(NFT);
    let reward = account(REWARD);
    assert_eq!(staking.init(&mut host(0), admin, nft, reward, 10i128), Ok(()));

    assert_eq!(staking.get_total_staked(), 0u32);
}

#[test]
fn pending_rewards_zero_before_stake() {
    let mut staking = NftStaking::new();
    let admin = account(ADMIN);
    let nft = account(NFT);
    let reward = account(REWARD);
    assert_eq!(staking.init(&mut host(0), admin, nft, reward, 10i128), Ok(()));

    assert_eq!(staking.get_pending_rewards(&host(0), 42u64), 0i128);
}

#[test]
fn staking_is_set_up_once() {
    let mut staking = staking(10);
    let mut env = host(0);
    assert_eq!(
        staking.init(&mut env, account(9), account(NFT), account(REWARD), 10),
        Err(Error::AlreadyInitialized)
    );
    assert_eq!(env.effects, vec![]);
    assert_eq!(staking.config.unwrap().admin, account(ADMIN));
}

#[test]
fn staking_needs_a_rate() {
    let mut staking = NftStaking::new();
    let mut env = host(0);
    assert_eq!(
        staking.init(&mut env, account(ADMIN), account(NFT), account(REWARD), 0),
        Err(Error::InvalidAmount)
    );
    assert_eq!(
        staking.init(&mut env, account(ADMIN), account(NFT), account(REWARD), -1),
        Err(Error::InvalidAmount)
    );
    assert!(staking.config.is_none());
    assert_eq!(
        env.effects,
        vec![Effect::RequireAuth(account(ADMIN)), Effect::RequireAuth(account(ADMIN))]
    );
}

#[test]
fn staking_must_be_set_up_first() {
    let mut staking = NftStaking::new();
    let mut env = host(0);
    let player = account(PLAYER);
    assert_eq!(staking.stake(&mut env, player, 1), Err(Error::NotInitialized));
    assert_eq!(staking.claim_rewards(&mut env, player, 1), Err(Error::NotInitialized));
    assert_eq!(staking.unstake(&mut env, player, 1), Err(Error::NotInitialized));
    assert_eq!(env.effects, vec![]);
}

#[test]
fn staking_locks_the_nft() {
    let mut staking = staking(10);
    let player = account(PLAYER);
    let mut env = host(50);
    assert_eq!(staking.stake(&mut env, player, 7), Ok(()));
    assert_eq!(
        env.effects,
        vec![
            Effect::RequireAuth(player),
            Effect::Transfer { token: account(NFT), from: player, to: contract(), amount: 1 },
            Effect::Store(DataKey::StakeRecord(7)),
            bump(DataKey::StakeRecord(7)),
            Effect::Store(DataKey::PlayerStakes(player)),
            bump(DataKey::PlayerStakes(player)),
            Effect::Store(DataKey::TotalStaked),
            Effect::Publish(Event::NftStaked(NftStaked { player, nft_id: 7 })),
        ]
    );
    assert_eq!(
        staking.get_stake(7),
        Some(StakeRecord { owner: player, nft_id: 7, staked_at_ts: 50, last_claim_ts: 50 })
    );
    assert_eq!(staking.get_player_stakes(player), vec![7]);
    assert_eq!(staking.get_total_staked(), 1);

    let mut env = host(60);
    assert_eq!(staking.stake(&mut env, account(8), 7), Err(Error::NftAlreadyStaked));
    assert_eq!(env.effects, vec![Effect::RequireAuth(account(8))]);
}

#[test]
fn yield_accrues_by_the_second() {
    let mut staking = staking(10);
    let player = account(PLAYER);
    assert_eq!(staking.stake(&mut host(100), player, 7), Ok(()));
    assert_eq!(staking.get_pending_rewards(&host(100), 7), 0);
    assert_eq!(staking.get_pending_rewards(&host(160), 7), 600);
    assert_eq!(staking.get_pending_rewards(&host(40), 7), 0);
}

#[test]
fn claims_on_the_way_add_up() {
    let mut staking = staking(10);
    let player = account(PLAYER);
    assert_eq!(staking.stake(&mut host(100), player, 7), Ok(()));

    let mut env = host(130);
    assert_eq!(staking.claim_rewards(&mut env, player, 7), Ok(300));
    assert_eq!(
        env.effects,
        vec![
            Effect::RequireAuth(player),
            Effect::Store(DataKey::StakeRecord(7)),
            bump(DataKey::StakeRecord(7)),
            Effect::Transfer {
                token: account(REWARD),
                from: contract(),
                to: player,
                amount: 300
            },
            Effect::Publish(Event::RewardsClaimed(RewardsClaimed { player, amount: 300 })),
        ]
    );
    assert_eq!(staking.get_pending_rewards(&host(130), 7), 0);
    assert_eq!(staking.get_stake(7).unwrap().staked_at_ts, 100);
    assert_eq!(staking.claim_rewards(&mut host(200), player, 7), Ok(700));
}

#[test]
fn claims_and_unstake_give_the_whole_yield() {
    let mut staking = staking(10);
    let player = account(PLAYER);
    assert_eq!(staking.stake(&mut host(100), player, 7), Ok(()));
    let mut given = 0;
    for now in [100, 130, 130, 175] {
        given += staking.claim_rewards(&mut host(now), player, 7).unwrap();
        assert_eq!(
            staking.claim_rewards(&mut host(now), account(8), 7),
            Err(Error::NotOwner)
        );
    }
    given += staking.unstake(&mut host(260), player, 7).unwrap();
    assert_eq!(given, (260 - 100) * 10);
}

#[test]
fn nothing_is_transferred_for_no_yield() {
    let mut staking = staking(10);
    let player = account(PLAYER);
    assert_eq!(staking.stake(&mut host(100), player, 7), Ok(()));
    let mut env = host(100);
    assert_eq!(staking.claim_rewards(&mut env, player, 7), Ok(0));
    assert_eq!(
        env.effects,
        vec![
            Effect::RequireAuth(player),
            Effect::Store(DataKey::StakeRecord(7)),
            bump(DataKey::StakeRecord(7)),
            Effect::Publish(Event::RewardsClaimed(RewardsClaimed { player, amount: 0 })),
        ]
    );
}

#[test]
fn only_the_owner_is_served() {
    let mut staking = staking(10);
    let player = account(PLAYER);
    assert_eq!(staking.stake(&mut host(100), player, 7), Ok(()));
    assert_eq!(staking.claim_rewards(&mut host(200), account(8), 7), Err(Error::NotOwner));
    assert_eq!(staking.unstake(&mut host(200), account(8), 7), Err(Error::NotOwner));
    assert_eq!(staking.claim_rewards(&mut host(200), player, 6), Err(Error::NftNotStaked));
    assert_eq!(staking.unstake(&mut host(200), player, 6), Err(Error::NftNotStaked));
    assert_eq!(staking.get_stake(7).unwrap().owner, player);
}

#[test]
fn unstaking_undoes_staking() {
    let mut staking = staking(10);
    let player = account(PLAYER);
    assert_eq!(staking.stake(&mut host(0), player, 5), Ok(()));
    assert_eq!(staking.stake(&mut host(0), player, 6), Ok(()));
    assert_eq!(staking.stake(&mut host(100), player, 7), Ok(()));
    assert_eq!(staking.get_player_stakes(player), vec![5, 6, 7]);

    let mut env = host(102);
    assert_eq!(staking.unstake(&mut env, player, 7), Ok(20));
    assert_eq!(
        env.effects,
        vec![
            Effect::RequireAuth(player),
            Effect::Remove(DataKey::StakeRecord(7)),
            Effect::Store(DataKey::PlayerStakes(player)),
            Effect::Store(DataKey::TotalStaked),
            Effect::Transfer { token: account(NFT), from: contract(), to: player, amount: 1 },
            Effect::Transfer { token: account(REWARD), from: contract(), to: player, amount: 20 },
            Effect::Publish(Event::NftUnstaked(NftUnstaked {
                player,
                nft_id: 7,
                rewards_claimed: 20
            })),
        ]
    );
    assert_eq!(staking.get_stake(7), None);
    assert_eq!(staking.get_player_stakes(player), vec![5, 6]);
    assert_eq!(staking.get_total_staked(), 2);
    assert_eq!(staking.unstake(&mut host(102), player, 5), Ok(1_020));
    assert_eq!(staking.get_player_stakes(player), vec![6]);
    assert_eq!(staking.stake(&mut host(103), account(8), 7), Ok(()));
    assert_eq!(staking.get_player_stakes(account(8)), vec![7]);
}

#[test]
fn yield_that_cannot_be_counted_is_refused() {
    let mut staking = staking(i128::MAX);
    let player = account(PLAYER);
    assert_eq!(staking.stake(&mut host(0), player, 7), Ok(()));
    assert_eq!(staking.get_pending_rewards(&host(1), 7), i128::MAX);
    assert_eq!(staking.claim_rewards(&mut host(2), player, 7), Err(Error::Overflow));
    assert_eq!(staking.unstake(&mut host(2), player, 7), Err(Error::Overflow));
    assert_eq!(staking.get_pending_rewards(&host(2), 7), 0);
    assert_eq!(staking.get_total_staked(), 1);
}

#[test]
fn nft_staking_error_codes() {
    let errors = [
        Error::AlreadyInitialized,
        Error::NotInitialized,
        Error::NotAuthorized,
        Error::NftAlreadyStaked,
        Error::NftNotStaked,
        Error::NotOwner,
        Error::InvalidAmount,
        Error::Overflow,
    ];
    let codes: Vec<u32> = errors.iter().map(|e| e.code()).collect();
    assert_eq!(codes, vec![1, 2, 3, 4, 5, 6, 7, 8]);
}
