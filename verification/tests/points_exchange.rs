use stellarcade::address::Address;
use stellarcade::env::{Effect, Env, PERSISTENT_BUMP_LEDGERS};
use stellarcade::points_exchange::{
    DataKey, Error, Event, PointsExchange, PointsRecorded, PointsRedeemed,
};

fn account(n: u8) -> Address {
    Address::Account([n; 32])
}

fn contract() -> Address {
    Address::Contract([0; 32])
}

fn host() -> Env<DataKey, Event> {
    Env::new(0, contract())
}

fn bump(key: DataKey) -> Effect<DataKey, Event> {
    Effect::ExtendTtl {
        key,
        threshold: PERSISTENT_BUMP_LEDGERS,
        extend_to: PERSISTENT_BUMP_LEDGERS,
    }
}

const ADMIN: u8 = 1;
const TOKEN: u8 = 2;
const PLAYER: u8 = 3;

fn exchange(rate: u64) -> PointsExchange {
    let mut exchange = PointsExchange::new();
    assert_eq!(exchange.init(&mut host(), account(ADMIN), account(TOKEN), rate), Ok(()));
    exchange
}

#[test]
fn record_and_check_points() {
    let mut exchange = PointsExchange::new();
    let mut env = host();
    let admin = account(ADMIN);
    let token = account(TOKEN);
    let player = account(PLAYER);

    assert_eq!(exchange.init(&mut env, admin, token, 100u64), Ok(()));
    assert!(exchange.record_points(&mut env, admin, player, 500u64).is_ok());
    assert_eq!(exchange.get_player_points(player), 500u64);
}

#[test]
fn get_rate_returns_configured_value() {
    let mut exchange = PointsExchange::new();
    let admin = account(ADMIN);
    let token = account(TOKEN);
    assert_eq!(exchange.init(&mut host(), admin, token, 200u64), Ok(()));
    assert_eq!(exchange.get_rate(), 200u64);
}

#[test]
fn exchange_is_set_up_once() {
    let mut exchange = PointsExchange::new();
    let mut env = host();
    assert_eq!(
        exchange.init(&mut env, account(ADMIN), account(TOKEN), 0),
        Err(Error::InvalidAmount)
    );
    assert_eq!(env.effects, vec![Effect::RequireAuth(account(ADMIN))]);
    assert_eq!(exchange.get_rate(), 0);

    let mut env = host();
    assert_eq!(exchange.init(&mut env, account(ADMIN), account(TOKEN), 100), Ok(()));
    assert_eq!(
        env.effects,
        vec![
            Effect::RequireAuth(account(ADMIN)),
            Effect::Store(DataKey::Admin),
            Effect::Store(DataKey::Token),
            Effect::Store(DataKey::PointsPerToken),
        ]
    );
    let mut env = host();
    assert_eq!(
        exchange.init(&mut env, account(9), account(TOKEN), 1),
        Err(Error::AlreadyInitialized)
    );
    assert_eq!(env.effects, vec![]);
    assert_eq!(exchange.get_rate(), 100);
}

#[test]
fn exchange_must_be_set_up_first() {
    let mut exchange = PointsExchange::new();
    let mut env = host();
    let (admin, player) = (account(ADMIN), account(PLAYER));
    assert_eq!(exchange.fund(&mut env, admin, 1), Err(Error::NotInitialized));
    assert_eq!(exchange.set_rate(&mut env, admin, 1), Err(Error::NotInitialized));
    assert_eq!(
        exchange.record_points(&mut env, admin, player, 1),
        Err(Error::NotInitialized)
    );
    assert_eq!(exchange.redeem(&mut env, player, 1), Err(Error::NotInitialized));
    assert_eq!(env.effects, vec![]);
}

#[test]
fn exchange_is_run_by_its_admin() {
    let mut exchange = exchange(100);
    let player = account(PLAYER);
    let mut env = host();
    assert_eq!(exchange.fund(&mut env, player, 1), Err(Error::NotAuthorized));
    assert_eq!(exchange.set_rate(&mut env, player, 1), Err(Error::NotAuthorized));
    assert_eq!(
        exchange.record_points(&mut env, player, player, 1),
        Err(Error::NotAuthorized)
    );
    assert_eq!(
        env.effects,
        vec![
            Effect::RequireAuth(player),
            Effect::RequireAuth(player),
            Effect::RequireAuth(player)
        ]
    );
}

#[test]
fn funding_moves_tokens_in() {
    let exchange = exchange(100);
    let admin = account(ADMIN);
    assert_eq!(exchange.fund(&mut host(), admin, 0), Err(Error::InvalidAmount));
    assert_eq!(exchange.fund(&mut host(), admin, -5), Err(Error::InvalidAmount));
    let mut env = host();
    assert_eq!(exchange.fund(&mut env, admin, 900), Ok(()));
    assert_eq!(
        env.effects,
        vec![
            Effect::RequireAuth(admin),
            Effect::Transfer { token: account(TOKEN), from: admin, to: contract(), amount: 900 },
        ]
    );
}

#[test]
fn rate_stays_positive() {
    let mut exchange = exchange(100);
    let admin = account(ADMIN);
    assert_eq!(exchange.set_rate(&mut host(), admin, 0), Err(Error::InvalidAmount));
    assert_eq!(exchange.get_rate(), 100);
    let mut env = host();
    assert_eq!(exchange.set_rate(&mut env, admin, 40), Ok(()));
    assert_eq!(
        env.effects,
        vec![Effect::RequireAuth(admin), Effect::Store(DataKey::PointsPerToken)]
    );
    assert_eq!(exchange.get_rate(), 40);
}

#[test]
fn points_are_credited() {
    let mut exchange = exchange(100);
    let (admin, player) = (account(ADMIN), account(PLAYER));
    assert_eq!(exchange.record_points(&mut host(), admin, player, 500), Ok(500));
    let mut env = host();
    assert_eq!(exchange.record_points(&mut env, admin, player, 20), Ok(520));
    assert_eq!(
        env.effects,
        vec![
            Effect::RequireAuth(admin),
            Effect::Store(DataKey::PlayerPoints(player)),
            bump(DataKey::PlayerPoints(player)),
            Effect::Publish(Event::PointsRecorded(PointsRecorded {
                player,
                points_added: 20,
                total_points: 520,
            })),
        ]
    );
    assert_eq!(
        exchange.record_points(&mut host(), admin, player, u64::MAX),
        Err(Error::Overflow)
    );
    assert_eq!(exchange.get_player_points(player), 520);
}

#[test]
fn points_are_redeemed_at_the_rate() {
    let mut exchange = exchange(100);
    let (admin, player) = (account(ADMIN), account(PLAYER));
    assert_eq!(exchange.record_points(&mut host(), admin, player, 1_000), Ok(1_000));

    assert_eq!(exchange.redeem(&mut host(), player, 0), Err(Error::InvalidAmount));
    assert_eq!(exchange.redeem(&mut host(), player, 99), Err(Error::InvalidAmount));
    assert_eq!(
        exchange.redeem(&mut host(), player, 1_001),
        Err(Error::InsufficientPoints)
    );
    assert_eq!(
        exchange.redeem(&mut host(), account(7), 100),
        Err(Error::InsufficientPoints)
    );

    let mut env = host();
    assert_eq!(exchange.redeem(&mut env, player, 250), Ok(2));
    assert_eq!(
        env.effects,
        vec![
            Effect::RequireAuth(player),
            Effect::Store(DataKey::PlayerPoints(player)),
            bump(DataKey::PlayerPoints(player)),
            Effect::Store(DataKey::TotalRedeemed),
            Effect::Transfer { token: account(TOKEN), from: contract(), to: player, amount: 2 },
            Effect::Publish(Event::PointsRedeemed(PointsRedeemed {
                player,
                points_spent: 250,
                tokens_received: 2,
            })),
        ]
    );
    assert_eq!(exchange.get_player_points(player), 750);
    assert_eq!(exchange.set_rate(&mut host(), admin, 10), Ok(()));
    assert_eq!(exchange.redeem(&mut host(), player, 750), Ok(75));
    assert_eq!(exchange.get_player_points(player), 0);
    assert_eq!(exchange.get_total_redeemed(), 77);
}

#[test]
fn total_redeemed_does_not_overflow() {
    let mut exchange = exchange(1);
    let (admin, player) = (account(ADMIN), account(PLAYER));
    assert_eq!(exchange.record_points(&mut host(), admin, player, 2), Ok(2));
    exchange.total_redeemed = i128::MAX - 1;
    assert_eq!(exchange.redeem(&mut host(), player, 2), Err(Error::Overflow));
    assert_eq!(exchange.get_player_points(player), 2);
    assert_eq!(exchange.redeem(&mut host(), player, 1), Ok(1));
    assert_eq!(exchange.get_total_redeemed(), i128::MAX);
}

#[test]
fn exchange_error_codes() {
    let errors = [
        Error::AlreadyInitialized,
        Error::NotInitialized,
        Error::NotAuthorized,
        Error::InsufficientPoints,
        Error::InsufficientFunds,
        Error::InvalidAmount,
        Error::Overflow,
    ];
    let codes: Vec<u32> = errors.iter().map(|e| e.code()).collect();
    assert_eq!(codes, vec![1, 2, 3, 4, 5, 6, 7]);
}
