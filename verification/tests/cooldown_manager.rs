use stellarcade::address::{Address, Symbol};
use stellarcade::cooldown_manager::{
    CooldownConsumed, CooldownManager, DataKey, Error, Event, GameRegistered,
};
use stellarcade::env::{Effect, Env, PERSISTENT_BUMP_LEDGERS};

fn account(n: u8) -> Address {
    Address::Account([n; 32])
}

fn symbol(name: &str) -> Symbol {
    let mut bytes = [0u8; 32];
    bytes[..name.len()].copy_from_slice(name.as_bytes());
    Symbol { bytes }
}

fn host(now: u64) -> Env<DataKey, Event> {
    Env::new(now, Address::Contract([0; 32]))
}

const ADMIN: u8 = 1;
const PLAYER: u8 = 2;

fn manager() -> CooldownManager {
    let mut manager = CooldownManager::new();
    assert_eq!(manager.init(&mut host(0), account(ADMIN)), Ok(()));
    manager
}

fn with_game(name: &str, cooldown_secs: u64) -> CooldownManager {
    let mut manager = manager();
    assert_eq!(
        manager.register_game(&mut host(0), account(ADMIN), symbol(name), cooldown_secs),
        Ok(())
    );
    manager
}

#[test]
fn register_and_consume_cooldown() {
    let mut manager = CooldownManager::new();
    let mut env = host(0);
    let admin = account(ADMIN);
    assert_eq!(manager.init(&mut env, admin), Ok(()));

    let game_id = symbol("COIN_FLIP");
    assert_eq!(manager.register_game(&mut env, admin, game_id, 60u64), Ok(()));

    let player = account(PLAYER);
    let next = manager.check_and_consume(&mut env, admin, game_id, player).unwrap();
    assert!(next > 0u64);
}

#[test]
fn second_consume_within_cooldown_fails() {
    let mut manager = CooldownManager::new();
    let mut env = host(0);
    let admin = account(ADMIN);
    assert_eq!(manager.init(&mut env, admin), Ok(()));

    let game_id = symbol("DICE_ROLL");
    assert_eq!(manager.register_game(&mut env, admin, game_id, 3600u64), Ok(()));

    let player = account(PLAYER);
    assert!(manager.check_and_consume(&mut env, admin, game_id, player).is_ok());

    let result = manager.check_and_consume(&mut env, admin, game_id, player);
    assert!(result.is_err());
}

#[test]
fn manager_is_set_up_once() {
    let mut manager = CooldownManager::new();
    let mut env = host(0);
    assert_eq!(manager.init(&mut env, account(ADMIN)), Ok(()));
    assert_eq!(
        env.effects,
        vec![Effect::RequireAuth(account(ADMIN)), Effect::Store(DataKey::Admin)]
    );
    assert_eq!(manager.init(&mut host(0), account(9)), Err(Error::AlreadyInitialized));
    assert_eq!(manager.config.unwrap().admin, account(ADMIN));
}

#[test]
fn manager_must_be_set_up_first() {
    let mut manager = CooldownManager::new();
    let mut env = host(0);
    let game = symbol("DICE");
    assert_eq!(
        manager.register_game(&mut env, account(ADMIN), game, 1),
        Err(Error::NotInitialized)
    );
    assert_eq!(
        manager.check_and_consume(&mut env, account(ADMIN), game, account(PLAYER)),
        Err(Error::NotInitialized)
    );
    assert_eq!(env.effects, vec![]);
}

#[test]
fn manager_is_run_by_its_admin() {
    let mut manager = with_game("DICE", 60);
    let mut env = host(0);
    let player = account(PLAYER);
    assert_eq!(
        manager.register_game(&mut env, player, symbol("DICE"), 1),
        Err(Error::NotAuthorized)
    );
    assert_eq!(
        manager.check_and_consume(&mut env, player, symbol("DICE"), player),
        Err(Error::NotAuthorized)
    );
    assert_eq!(env.effects, vec![Effect::RequireAuth(player), Effect::RequireAuth(player)]);
}

#[test]
fn windows_take_some_time() {
    let mut manager = manager();
    let admin = account(ADMIN);
    let game = symbol("DICE");
    assert_eq!(
        manager.register_game(&mut host(0), admin, game, 0),
        Err(Error::InvalidDuration)
    );
    assert_eq!(
        manager.check_and_consume(&mut host(0), admin, game, account(PLAYER)),
        Err(Error::GameNotRegistered)
    );
    let mut env = host(0);
    assert_eq!(manager.register_game(&mut env, admin, game, 30), Ok(()));
    assert_eq!(
        env.effects,
        vec![
            Effect::RequireAuth(admin),
            Effect::Store(DataKey::GameCooldown(game)),
            Effect::Publish(Event::GameRegistered(GameRegistered {
                game_id: game,
                cooldown_secs: 30
            })),
        ]
    );
}

#[test]
fn cooldown_runs_to_its_end() {
    let mut manager = with_game("DICE", 60);
    let (admin, player, game) = (account(ADMIN), account(PLAYER), symbol("DICE"));
    assert_eq!(manager.get_next_available(&host(1_000), game, player), 0);

    let mut env = host(1_000);
    assert_eq!(manager.check_and_consume(&mut env, admin, game, player), Ok(1_060));
    let key = DataKey::PlayerCooldown(game, player);
    assert_eq!(
        env.effects,
        vec![
            Effect::RequireAuth(admin),
            Effect::Store(key),
            Effect::ExtendTtl {
                key,
                threshold: PERSISTENT_BUMP_LEDGERS,
                extend_to: PERSISTENT_BUMP_LEDGERS,
            },
            Effect::Publish(Event::CooldownConsumed(CooldownConsumed {
                game_id: game,
                player,
                next_available_ts: 1_060,
            })),
        ]
    );
    let mut env = host(1_059);
    assert_eq!(
        manager.check_and_consume(&mut env, admin, game, player),
        Err(Error::CooldownActive)
    );
    assert_eq!(env.effects, vec![Effect::RequireAuth(admin)]);
    assert_eq!(manager.get_next_available(&host(1_059), game, player), 1_060);
    assert_eq!(manager.get_next_available(&host(1_060), game, player), 0);
    assert_eq!(
        manager.check_and_consume(&mut host(1_060), admin, game, player),
        Ok(1_120)
    );
    assert_eq!(manager.get_action_count(game, player), 2);
}

#[test]
fn cooldowns_are_per_game_and_player() {
    let mut manager = with_game("DICE", 60);
    let (admin, player, game) = (account(ADMIN), account(PLAYER), symbol("DICE"));
    let other_game = symbol("COIN_FLIP");
    assert_eq!(manager.register_game(&mut host(0), admin, other_game, 10), Ok(()));
    assert_eq!(manager.check_and_consume(&mut host(5), admin, game, player), Ok(65));
    assert_eq!(manager.check_and_consume(&mut host(5), admin, other_game, player), Ok(15));
    assert_eq!(manager.check_and_consume(&mut host(5), admin, game, account(7)), Ok(65));
    assert_eq!(manager.get_action_count(game, player), 1);
    assert_eq!(manager.get_action_count(other_game, account(7)), 0);
}

#[test]
fn changed_window_leaves_running_cooldowns_alone() {
    let mut manager = with_game("DICE", 60);
    let (admin, player, game) = (account(ADMIN), account(PLAYER), symbol("DICE"));
    assert_eq!(manager.check_and_consume(&mut host(1_000), admin, game, player), Ok(1_060));

    assert_eq!(manager.register_game(&mut host(1_010), admin, game, 5), Ok(()));
    assert_eq!(manager.get_next_available(&host(1_020), game, player), 1_060);
    assert_eq!(
        manager.check_and_consume(&mut host(1_020), admin, game, player),
        Err(Error::CooldownActive)
    );

    assert_eq!(manager.register_game(&mut host(1_030), admin, game, 500), Ok(()));
    assert_eq!(
        manager.check_and_consume(&mut host(1_060), admin, game, player),
        Ok(1_560)
    );
}

#[test]
fn cooldown_end_does_not_overflow() {
    let mut manager = with_game("DICE", u64::MAX);
    let (admin, player, game) = (account(ADMIN), account(PLAYER), symbol("DICE"));
    assert_eq!(manager.check_and_consume(&mut host(10), admin, game, player), Ok(u64::MAX));
}

#[test]
fn cooldown_error_codes() {
    let errors = [
        Error::AlreadyInitialized,
        Error::NotInitialized,
        Error::NotAuthorized,
        Error::GameNotRegistered,
        Error::CooldownActive,
        Error::InvalidDuration,
    ];
    let codes: Vec<u32> = errors.iter().map(|e| e.code()).collect();
    assert_eq!(codes, vec![1, 2, 3, 4, 5, 6]);
}
