use stellarcade::address::Address;
use stellarcade::battle_pass::{
    BattlePass, DataKey, Error, Event, PlayerProgress, TierConfig, TierRewardClaimed, XpRecorded,
};
use stellarcade::env::{Effect, Env, PERSISTENT_BUMP_LEDGERS};

fn account(n: u8) -> Address {
    Address::Account([n; 32])
}

fn host() -> Env<DataKey, Event> {
    Env::new(0, Address::Contract([0; 32]))
}

fn bump(key: DataKey) -> Effect<DataKey, Event> {
    Effect::ExtendTtl {
        key,
        threshold: PERSISTENT_BUMP_LEDGERS,
        extend_to: PERSISTENT_BUMP_LEDGERS,
    }
}

const ADMIN: u8 = 1;
const TOKEN: u8 = 2;
const PLAYER: u8 = 3;

/// A pass of season 1 with one tier: 100 units for 500 XP.
fn with_tier() -> BattlePass {
    let mut pass = BattlePass::new();
    assert_eq!(pass.init(&mut host(), account(ADMIN), account(TOKEN), 1, 100_000), Ok(()));
    let tier = TierConfig { tier_id: 1, xp_required: 500, reward_amount: 100 };
    assert_eq!(pass.set_tier(&mut host(), account(ADMIN), tier), Ok(()));
    pass
}

#[test]
fn init_and_set_tier() {
    let mut pass = BattlePass::new();
    let mut env = host();
    let admin = account(ADMIN);
    let token = account(TOKEN);
    assert_eq!(pass.init(&mut env, admin, token, 1u32, 100_000u32), Ok(()));

    let tier = TierConfig { tier_id: 1, xp_required: 500, reward_amount: 100 };
    assert_eq!(pass.set_tier(&mut env, admin, tier), Ok(()));

    let tier = pass.get_tier(1u32).unwrap();
    assert_eq!(tier.xp_required, 500);
}

#[test]
fn record_xp_accumulates() {
    let mut pass = BattlePass::new();
    let mut env = host();
    let admin = account(ADMIN);
    let player = account(PLAYER);
    let token = account(TOKEN);
    assert_eq!(pass.init(&mut env, admin, token, 1u32, 100_000u32), Ok(()));

    assert!(pass.record_xp(&mut env, admin, player, 300u64).is_ok());
    assert!(pass.record_xp(&mut env, admin, player, 250u64).is_ok());
    let progress = pass.get_player_progress(player);
    assert_eq!(progress.total_xp, 550);
}

#[test]
fn pass_is_set_up_once() {
    let mut pass = BattlePass::new();
    let mut env = host();
    assert_eq!(pass.init(&mut env, account(ADMIN), account(TOKEN), 1, 100_000), Ok(()));
    assert_eq!(
        env.effects,
        vec![
            Effect::RequireAuth(account(ADMIN)),
            Effect::Store(DataKey::Admin),
            Effect::Store(DataKey::Token),
            Effect::Store(DataKey::SeasonId),
            Effect::Store(DataKey::SeasonEndLedger),
        ]
    );
    let mut again = host();
    assert_eq!(
        pass.init(&mut again, account(9), account(TOKEN), 2, 5),
        Err(Error::AlreadyInitialized)
    );
    assert_eq!(again.effects, vec![]);
    assert_eq!(pass.config.unwrap().admin, account(ADMIN));
    assert_eq!(pass.config.unwrap().season_end_ledger, 100_000);
}

#[test]
fn pass_must_be_set_up_first() {
    let mut pass = BattlePass::new();
    let mut env = host();
    let tier = TierConfig { tier_id: 1, xp_required: 0, reward_amount: 1 };
    assert_eq!(pass.set_tier(&mut env, account(ADMIN), tier), Err(Error::NotInitialized));
    assert_eq!(
        pass.record_xp(&mut env, account(ADMIN), account(PLAYER), 1),
        Err(Error::NotInitialized)
    );
    assert_eq!(
        pass.claim_tier_reward(&mut env, account(PLAYER), 1),
        Err(Error::NotInitialized)
    );
    assert_eq!(env.effects, vec![]);
    assert_eq!(
        pass.get_player_progress(account(PLAYER)),
        PlayerProgress { total_xp: 0, season_id: 0 }
    );
}

#[test]
fn pass_is_run_by_its_admin() {
    let mut pass = with_tier();
    let mut env = host();
    let tier = TierConfig { tier_id: 1, xp_required: 0, reward_amount: 9 };
    assert_eq!(pass.set_tier(&mut env, account(PLAYER), tier), Err(Error::NotAuthorized));
    assert_eq!(
        pass.record_xp(&mut env, account(PLAYER), account(PLAYER), 1),
        Err(Error::NotAuthorized)
    );
    assert_eq!(
        env.effects,
        vec![Effect::RequireAuth(account(PLAYER)), Effect::RequireAuth(account(PLAYER))]
    );
    assert_eq!(pass.get_tier(1).unwrap().reward_amount, 100);
}

#[test]
fn only_the_admin_passes_the_check() {
    let mut env = host();
    assert_eq!(
        BattlePass::new().require_admin(&mut env, account(ADMIN)),
        Err(Error::NotInitialized)
    );
    assert_eq!(env.effects, vec![]);
    let pass = with_tier();
    assert_eq!(pass.require_admin(&mut env, account(PLAYER)), Err(Error::NotAuthorized));
    assert_eq!(pass.require_admin(&mut env, account(ADMIN)), Ok(()));
    assert_eq!(
        env.effects,
        vec![Effect::RequireAuth(account(PLAYER)), Effect::RequireAuth(account(ADMIN))]
    );
}

#[test]
fn tier_is_replaced() {
    let mut pass = with_tier();
    let mut env = host();
    let tier = TierConfig { tier_id: 1, xp_required: 700, reward_amount: 150 };
    assert_eq!(pass.set_tier(&mut env, account(ADMIN), tier), Ok(()));
    assert_eq!(pass.get_tier(1), Ok(tier));
    assert_eq!(pass.get_tier(2), Err(Error::TierNotFound));
    assert_eq!(
        env.effects,
        vec![Effect::RequireAuth(account(ADMIN)), Effect::Store(DataKey::Tier(1))]
    );
}

#[test]
fn xp_credited_twice_is_the_sum_credited_once() {
    let mut twice = with_tier();
    let mut once = with_tier();
    let mut env = host();
    let (admin, player) = (account(ADMIN), account(PLAYER));
    assert_eq!(
        twice.record_xp(&mut env, admin, player, 300),
        Ok(PlayerProgress { total_xp: 300, season_id: 1 })
    );
    assert_eq!(
        env.effects,
        vec![
            Effect::RequireAuth(admin),
            Effect::Store(DataKey::PlayerXp(player)),
            bump(DataKey::PlayerXp(player)),
            Effect::Publish(Event::XpRecorded(XpRecorded {
                player,
                xp_added: 300,
                total_xp: 300
            })),
        ]
    );
    let last = twice.record_xp(&mut host(), admin, player, 250);
    assert_eq!(last, once.record_xp(&mut host(), admin, player, 550));
    assert_eq!(twice.get_player_progress(player), once.get_player_progress(player));
}

#[test]
fn xp_does_not_overflow() {
    let mut pass = with_tier();
    let (admin, player) = (account(ADMIN), account(PLAYER));
    assert!(pass.record_xp(&mut host(), admin, player, u64::MAX).is_ok());
    assert_eq!(pass.record_xp(&mut host(), admin, player, 1), Err(Error::Overflow));
    assert_eq!(pass.get_player_progress(player).total_xp, u64::MAX);
}

#[test]
fn xp_of_another_season_is_forgotten() {
    let mut pass = with_tier();
    let (admin, player) = (account(ADMIN), account(PLAYER));
    pass.player_xp.set(player, PlayerProgress { total_xp: 900, season_id: 0 });
    assert_eq!(
        pass.record_xp(&mut host(), admin, player, 40),
        Ok(PlayerProgress { total_xp: 40, season_id: 1 })
    );
}

#[test]
fn tier_is_claimed_once() {
    let mut pass = with_tier();
    let (admin, player) = (account(ADMIN), account(PLAYER));
    assert_eq!(pass.claim_tier_reward(&mut host(), player, 2), Err(Error::TierNotFound));
    assert_eq!(pass.claim_tier_reward(&mut host(), player, 1), Err(Error::InsufficientXp));
    assert!(pass.record_xp(&mut host(), admin, player, 499).is_ok());
    assert_eq!(pass.claim_tier_reward(&mut host(), player, 1), Err(Error::InsufficientXp));
    assert!(!pass.has_claimed(player, 1));
    assert!(pass.record_xp(&mut host(), admin, player, 1).is_ok());

    let mut env = host();
    assert_eq!(pass.claim_tier_reward(&mut env, player, 1), Ok(100));
    assert_eq!(
        env.effects,
        vec![
            Effect::RequireAuth(player),
            Effect::Store(DataKey::PlayerClaimed(player, 1)),
            bump(DataKey::PlayerClaimed(player, 1)),
            Effect::Transfer {
                token: account(TOKEN),
                from: Address::Contract([0; 32]),
                to: player,
                amount: 100,
            },
            Effect::Publish(Event::TierRewardClaimed(TierRewardClaimed {
                player,
                tier_id: 1,
                reward_amount: 100,
            })),
        ]
    );
    assert!(pass.has_claimed(player, 1));
    assert!(!pass.has_claimed(account(7), 1));

    assert!(pass.record_xp(&mut host(), admin, player, 1_000).is_ok());
    let mut env = host();
    assert_eq!(pass.claim_tier_reward(&mut env, player, 1), Err(Error::TierAlreadyClaimed));
    assert_eq!(env.effects, vec![Effect::RequireAuth(player)]);
}

#[test]
fn battle_pass_error_codes() {
    let errors = [
        Error::AlreadyInitialized,
        Error::NotInitialized,
        Error::NotAuthorized,
        Error::TierNotFound,
        Error::TierAlreadyClaimed,
        Error::InsufficientXp,
        Error::InvalidAmount,
        Error::Overflow,
    ];
    let codes: Vec<u32> = errors.iter().map(|e| e.code()).collect();
    assert_eq!(codes, vec![1, 2, 3, 4, 5, 6, 7, 8]);
}
