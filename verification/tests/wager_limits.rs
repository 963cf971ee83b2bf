use stellarcade::address::Address;
use stellarcade::env::{Effect, Env, PERSISTENT_BUMP_LEDGERS};
use stellarcade::wager_limits::{
    DataKey, Error, Event, LimitOverrideSet, PlayerWindowState, Wager, WagerLimits,
    WagerRecorded, WINDOW_SECS,
};

fn account(n: u8) -> Address {
    Address::Account([n; 32])
}

fn host(now: u64) -> Env<DataKey, Event> {
    Env::new(now, Address::Contract([0; 32]))
}

fn bump(key: DataKey) -> Effect<DataKey, Event> {
    Effect::ExtendTtl {
        key,
        threshold: PERSISTENT_BUMP_LEDGERS,
        extend_to: PERSISTENT_BUMP_LEDGERS,
    }
}

const ADMIN: u8 = 1;
const PLAYER: u8 = 2;

/// At most 10 000 a day and 1 000 on a bet.
fn limits() -> WagerLimits {
    let mut limits = WagerLimits::new();
    assert_eq!(limits.init(&mut host(0), account(ADMIN), 10_000, 1_000), Ok(()));
    limits
}

#[test]
fn can_wager_within_limits() {
    let mut limits = WagerLimits::new();
    let mut env = host(0);
    let admin = account(ADMIN);
    assert_eq!(limits.init(&mut env, admin, 10_000i128, 1_000i128), Ok(()));

    let player = account(PLAYER);
    assert_eq!(limits.can_wager(&env, player, 500i128), Ok(()));
}

#[test]
fn rejects_over_per_bet_limit() {
    let mut limits = WagerLimits::new();
    let mut env = host(0);
    let admin = account(ADMIN);
    assert_eq!(limits.init(&mut env, admin, 10_000i128, 1_000i128), Ok(()));

    let player = account(PLAYER);
    let result = limits.can_wager(&env, player, 2_000i128);
    assert!(result.is_err());
}

#[test]
fn limits_are_set_up_once() {
    let mut limits = WagerLimits::new();
    let mut env = host(0);
    assert_eq!(limits.init(&mut env, account(ADMIN), 500, 50), Ok(()));
    assert_eq!(
        env.effects,
        vec![
            Effect::RequireAuth(account(ADMIN)),
            Effect::Store(DataKey::Admin),
            Effect::Store(DataKey::DefaultDailyLimit),
            Effect::Store(DataKey::DefaultPerBetLimit),
        ]
    );
    assert_eq!(limits.init(&mut host(0), account(9), 1, 1), Err(Error::AlreadyInitialized));
    assert_eq!(limits.get_limits_for(account(PLAYER)), (500, 50));
}

#[test]
fn limits_must_be_set_up_first() {
    let mut limits = WagerLimits::new();
    let mut env = host(0);
    let (admin, player) = (account(ADMIN), account(PLAYER));
    assert_eq!(limits.can_wager(&env, player, 1), Err(Error::NotInitialized));
    assert_eq!(
        limits.set_player_override(&mut env, admin, player, 1, 1),
        Err(Error::NotInitialized)
    );
    assert_eq!(
        limits.record_wager(&mut env, admin, player, 1),
        Err(Error::NotInitialized)
    );
    assert_eq!(env.effects, vec![]);
    assert_eq!(limits.get_limits_for(player), (10_000, 1_000));
    assert_eq!(limits.get_player_daily_total(&env, player), 0);
}

#[test]
fn limits_are_kept_by_the_admin() {
    let mut limits = limits();
    let player = account(PLAYER);
    let mut env = host(0);
    assert_eq!(
        limits.set_player_override(&mut env, player, player, 1, 1),
        Err(Error::NotAuthorized)
    );
    assert_eq!(
        limits.record_wager(&mut env, player, player, 1),
        Err(Error::NotAuthorized)
    );
    assert_eq!(env.effects, vec![Effect::RequireAuth(player), Effect::RequireAuth(player)]);
}

#[test]
fn bets_are_checked_against_both_limits() {
    let mut limits = limits();
    let (admin, player) = (account(ADMIN), account(PLAYER));
    let env = host(0);
    assert_eq!(limits.can_wager(&env, player, 0), Err(Error::InvalidAmount));
    assert_eq!(limits.can_wager(&env, player, -3), Err(Error::InvalidAmount));
    assert_eq!(limits.can_wager(&env, player, 1_000), Ok(()));
    assert_eq!(limits.can_wager(&env, player, 1_001), Err(Error::PerBetLimitExceeded));
    assert_eq!(limits.record_wager(&mut host(0), admin, player, 9_500), Ok(9_500));
    assert_eq!(limits.can_wager(&env, player, 500), Ok(()));
    assert_eq!(limits.can_wager(&env, player, 501), Err(Error::DailyLimitExceeded));
    assert_eq!(limits.can_wager(&env, account(7), 501), Ok(()));
    assert_eq!(env.effects, vec![]);
}

#[test]
fn bets_of_a_day_add_up() {
    let mut limits = limits();
    let (admin, player) = (account(ADMIN), account(PLAYER));
    assert_eq!(
        limits.record_wager(&mut host(0), admin, player, 0),
        Err(Error::InvalidAmount)
    );
    let mut env = host(1_000);
    assert_eq!(limits.record_wager(&mut env, admin, player, 600), Ok(600));
    assert_eq!(
        env.effects,
        vec![
            Effect::RequireAuth(admin),
            Effect::Store(DataKey::PlayerWindow(player)),
            bump(DataKey::PlayerWindow(player)),
            Effect::Publish(Event::WagerRecorded(WagerRecorded {
                player,
                amount: 600,
                daily_total: 600,
            })),
        ]
    );
    let last = 1_000 + WINDOW_SECS - 1;
    assert_eq!(limits.record_wager(&mut host(last), admin, player, 300), Ok(900));
    assert_eq!(limits.get_player_daily_total(&host(last), player), 900);
    assert_eq!(limits.get_player_daily_total(&host(last), account(7)), 0);
}

#[test]
fn each_bet_counts_for_a_day() {
    let mut limits = limits();
    let (admin, player) = (account(ADMIN), account(PLAYER));
    assert_eq!(limits.record_wager(&mut host(1_000), admin, player, 10_000), Ok(10_000));
    let next = 1_000 + 86_400;
    assert_eq!(
        limits.can_wager(&host(next - 1), player, 1),
        Err(Error::DailyLimitExceeded)
    );
    assert_eq!(limits.get_player_daily_total(&host(next), player), 0);
    assert_eq!(limits.can_wager(&host(next), player, 1), Ok(()));
    assert_eq!(limits.record_wager(&mut host(next), admin, player, 40), Ok(40));
    assert_eq!(limits.get_player_daily_total(&host(next + 86_399), player), 40);
    assert_eq!(limits.get_player_daily_total(&host(next + 86_400), player), 0);
}

#[test]
fn daily_limit_rolls() {
    let mut limits = WagerLimits::new();
    let (admin, player) = (account(ADMIN), account(PLAYER));
    assert_eq!(limits.init(&mut host(0), admin, 10_000, 10_000), Ok(()));
    assert_eq!(limits.record_wager(&mut host(100_000), admin, player, 1), Ok(1));
    assert_eq!(limits.record_wager(&mut host(186_399), admin, player, 9_999), Ok(10_000));
    assert_eq!(
        limits.can_wager(&host(186_400), player, 5_000),
        Err(Error::DailyLimitExceeded)
    );
    assert_eq!(limits.get_player_daily_total(&host(186_400), player), 9_999);
    assert_eq!(limits.can_wager(&host(186_400), player, 1), Ok(()));
    assert_eq!(limits.record_wager(&mut host(186_400), admin, player, 1), Ok(10_000));
    assert_eq!(
        limits.windows.get(&player).unwrap().bets(),
        &vec![Wager { ts: 186_399, amount: 9_999 }, Wager { ts: 186_400, amount: 1 }]
    );
    assert_eq!(
        limits.can_wager(&host(272_798), player, 1),
        Err(Error::DailyLimitExceeded)
    );
    assert_eq!(limits.can_wager(&host(272_799), player, 9_999), Ok(()));
    assert_eq!(limits.can_wager(&host(272_799), player, 10_000), Err(Error::DailyLimitExceeded));
}

#[test]
fn bet_in_the_future_counts() {
    let mut limits = limits();
    let (admin, player) = (account(ADMIN), account(PLAYER));
    assert_eq!(limits.record_wager(&mut host(1_000), admin, player, 5), Ok(5));
    assert_eq!(limits.get_player_daily_total(&host(10), player), 5);
}

#[test]
fn windows_hold_bets_that_can_be_counted() {
    let bet = |amount: i128| Wager { ts: 50, amount };
    assert_eq!(PlayerWindowState::new(vec![bet(0)]), None);
    assert_eq!(PlayerWindowState::new(vec![bet(3), bet(-1)]), None);
    assert_eq!(PlayerWindowState::new(vec![bet(i128::MAX), bet(1)]), None);
    let window = PlayerWindowState::new(vec![bet(3), bet(4)]).unwrap();
    assert_eq!(window.bets(), &vec![bet(3), bet(4)]);
    assert_eq!(window.wagered(60), 7);
    assert_eq!(window.wagered(50 + WINDOW_SECS), 0);
}

#[test]
fn overrides_take_the_place_of_defaults() {
    let mut limits = limits();
    let (admin, player) = (account(ADMIN), account(PLAYER));
    let mut env = host(0);
    assert_eq!(
        limits.set_player_override(&mut env, admin, player, 50_000, 5_000),
        Ok(())
    );
    assert_eq!(
        env.effects,
        vec![
            Effect::RequireAuth(admin),
            Effect::Store(DataKey::PlayerOverride(player)),
            bump(DataKey::PlayerOverride(player)),
            Effect::Publish(Event::LimitOverrideSet(LimitOverrideSet {
                player,
                daily_limit: 50_000,
                per_bet_limit: 5_000,
            })),
        ]
    );
    assert_eq!(limits.get_limits_for(player), (50_000, 5_000));
    assert_eq!(limits.get_limits_for(account(7)), (10_000, 1_000));
    assert_eq!(limits.can_wager(&host(0), player, 5_000), Ok(()));

    assert_eq!(limits.set_player_override(&mut host(0), admin, player, 0, 0), Ok(()));
    assert_eq!(
        limits.can_wager(&host(0), player, 1),
        Err(Error::PerBetLimitExceeded)
    );
}

#[test]
fn wagers_do_not_overflow() {
    let mut limits = limits();
    let (admin, player) = (account(ADMIN), account(PLAYER));
    assert_eq!(
        limits.set_player_override(&mut host(0), admin, player, i128::MAX, i128::MAX),
        Ok(())
    );
    assert_eq!(
        limits.record_wager(&mut host(0), admin, player, i128::MAX),
        Ok(i128::MAX)
    );
    assert_eq!(limits.can_wager(&host(0), player, 1), Err(Error::Overflow));
    assert_eq!(
        limits.record_wager(&mut host(0), admin, player, 1),
        Err(Error::Overflow)
    );
    assert_eq!(limits.get_player_daily_total(&host(0), player), i128::MAX);
}

#[test]
fn wager_error_codes() {
    let errors = [
        Error::AlreadyInitialized,
        Error::NotInitialized,
        Error::NotAuthorized,
        Error::DailyLimitExceeded,
        Error::PerBetLimitExceeded,
        Error::InvalidAmount,
        Error::Overflow,
    ];
    let codes: Vec<u32> = errors.iter().map(|e| e.code()).collect();
    assert_eq!(codes, vec![1, 2, 3, 4, 5, 6, 7]);
}
