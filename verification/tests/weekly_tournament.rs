use stellarcade::address::Address;
use stellarcade::env::{Effect, Env, PERSISTENT_BUMP_LEDGERS};
use stellarcade::weekly_tournament::{
    DataKey, Error, Event, PlayerEntered, RoundFinalised, RoundMeta, RoundOpened, ScorePosted,
    WeeklyTournament,
};

fn account(n: u8) -> Address {
    Address::Account([n; 32])
}

fn contract() -> Address {
    Address::Contract([0; 32])
}

fn host(now: u64) -> Env<DataKey, Event> {
    Env::new(now, contract())
}

fn bump(key: DataKey) -> Effect<DataKey, Event> {
    Effect::ExtendTtl {
        key,
        threshold: PERSISTENT_BUMP_LEDGERS,
        extend_to: PERSISTENT_BUMP_LEDGERS,
    }
}

fn prize(to: Address, amount: i128) -> Effect<DataKey, Event> {
    Effect::Transfer { token: account(TOKEN), from: contract(), to, amount }
}

const ADMIN: u8 = 1;
const TOKEN: u8 = 2;
const WEEK: u64 = 604_800;

fn tournament(fee: i128, ratios: Vec<u32>) -> WeeklyTournament {
    let mut t = WeeklyTournament::new();
    assert_eq!(t.init(&mut host(0), account(ADMIN), account(TOKEN), fee, ratios), Ok(()));
    t
}

/// Round 1 is open and the players 3 up to `last` have entered.
fn running(fee: i128, ratios: Vec<u32>, last: u8) -> WeeklyTournament {
    let mut t = tournament(fee, ratios);
    assert_eq!(t.open_round(&mut host(0), account(ADMIN), 1, WEEK), Ok(()));
    for n in 3..last + 1 {
        assert_eq!(t.enter(&mut host(1), account(n)), Ok(()));
    }
    t
}

#[test]
fn init_and_open_round() {
    let mut t = WeeklyTournament::new();
    let mut env = host(0);
    let admin = account(ADMIN);
    let token = account(TOKEN);
    let ratios = vec![6_000u32, 3_000u32, 1_000u32];
    assert_eq!(t.init(&mut env, admin, token, 100i128, ratios), Ok(()));
    assert_eq!(t.open_round(&mut env, admin, 1u32, 604_800u64), Ok(()));

    let meta = t.get_current_round().unwrap();
    assert_eq!(meta.round_id, 1u32);
    assert!(!meta.finalised);
}

#[test]
fn tournament_is_set_up_once() {
    let mut t = tournament(100, vec![10_000]);
    let mut env = host(0);
    assert_eq!(
        t.init(&mut env, account(9), account(TOKEN), 1, vec![10_000]),
        Err(Error::AlreadyInitialized)
    );
    assert_eq!(env.effects, vec![]);
    assert_eq!(t.config.as_ref().unwrap().admin, account(ADMIN));
}

#[test]
fn ratios_make_up_the_whole() {
    let mut t = WeeklyTournament::new();
    let mut env = host(0);
    for ratios in [vec![], vec![9_999], vec![6_000, 4_001], vec![u32::MAX, 10_001]] {
        assert_eq!(
            t.init(&mut env, account(ADMIN), account(TOKEN), 1, ratios),
            Err(Error::InvalidConfig)
        );
    }
    assert_eq!(env.effects.len(), 4);
    assert!(t.config.is_none());
    let mut env = host(0);
    assert_eq!(
        t.init(&mut env, account(ADMIN), account(TOKEN), 1, vec![4_000, 0, 6_000]),
        Ok(())
    );
    assert_eq!(
        env.effects,
        vec![
            Effect::RequireAuth(account(ADMIN)),
            Effect::Store(DataKey::Admin),
            Effect::Store(DataKey::Token),
            Effect::Store(DataKey::EntryFee),
            Effect::Store(DataKey::PrizeRatiosBps),
        ]
    );
}

#[test]
fn tournament_must_be_set_up_first() {
    let mut t = WeeklyTournament::new();
    let mut env = host(0);
    let admin = account(ADMIN);
    assert_eq!(t.open_round(&mut env, admin, 1, 1), Err(Error::NotInitialized));
    assert_eq!(t.enter(&mut env, account(3)), Err(Error::NotInitialized));
    assert_eq!(t.post_score(&mut env, admin, account(3), 1), Err(Error::NotInitialized));
    assert_eq!(t.finalise_round(&mut env, admin, vec![]), Err(Error::NotInitialized));
    assert_eq!(env.effects, vec![]);
    assert_eq!(t.get_current_round(), None);
}

#[test]
fn tournament_is_run_by_its_admin() {
    let mut t = running(100, vec![10_000], 3);
    let other = account(3);
    let mut env = host(0);
    assert_eq!(t.open_round(&mut env, other, 2, 1), Err(Error::NotAuthorized));
    assert_eq!(t.post_score(&mut env, other, other, 1), Err(Error::NotAuthorized));
    assert_eq!(t.finalise_round(&mut env, other, vec![other]), Err(Error::NotAuthorized));
    assert_eq!(
        env.effects,
        vec![
            Effect::RequireAuth(other),
            Effect::RequireAuth(other),
            Effect::RequireAuth(other)
        ]
    );
}

#[test]
fn rounds_need_opening() {
    let mut t = tournament(100, vec![10_000]);
    let admin = account(ADMIN);
    assert_eq!(t.enter(&mut host(0), account(3)), Err(Error::NoActiveRound));
    assert_eq!(t.post_score(&mut host(0), admin, account(3), 1), Err(Error::NoActiveRound));
    assert_eq!(t.finalise_round(&mut host(0), admin, vec![]), Err(Error::NoActiveRound));
}

#[test]
fn one_round_at_a_time() {
    let mut t = tournament(100, vec![10_000]);
    let admin = account(ADMIN);
    let mut env = host(1_000);
    assert_eq!(t.open_round(&mut env, admin, 4, WEEK), Ok(()));
    assert_eq!(
        env.effects,
        vec![
            Effect::RequireAuth(admin),
            Effect::Store(DataKey::CurrentRound),
            Effect::Store(DataKey::RoundMeta(4)),
            bump(DataKey::RoundMeta(4)),
            Effect::Publish(Event::RoundOpened(RoundOpened { round_id: 4, end_ts: 605_800 })),
        ]
    );
    assert_eq!(
        t.get_current_round(),
        Some(RoundMeta {
            round_id: 4,
            start_ts: 1_000,
            end_ts: 605_800,
            prize_pool: 0,
            participant_count: 0,
            finalised: false,
        })
    );
    assert_eq!(t.open_round(&mut host(9), admin, 5, WEEK), Err(Error::RoundAlreadyOpen));
    assert_eq!(t.finalise_round(&mut host(605_800), admin, vec![]), Ok(0));
    assert_eq!(t.open_round(&mut host(605_800), admin, 5, u64::MAX), Ok(()));
    assert_eq!(t.get_current_round().unwrap().end_ts, u64::MAX);
}

#[test]
fn entering_pays_into_the_pool() {
    let mut t = running(100, vec![10_000], 2);
    let player = account(3);
    let mut env = host(5);
    assert_eq!(t.enter(&mut env, player), Ok(()));
    assert_eq!(
        env.effects,
        vec![
            Effect::RequireAuth(player),
            Effect::Transfer { token: account(TOKEN), from: player, to: contract(), amount: 100 },
            Effect::Store(DataKey::PlayerEntered(1, player)),
            bump(DataKey::PlayerEntered(1, player)),
            Effect::Store(DataKey::RoundMeta(1)),
            Effect::Publish(Event::PlayerEntered(PlayerEntered {
                round_id: 1,
                player,
                fee_paid: 100
            })),
        ]
    );
    assert_eq!(t.enter(&mut host(5), account(4)), Ok(()));
    let meta = t.get_current_round().unwrap();
    assert_eq!((meta.prize_pool, meta.participant_count), (200, 2));

    let mut env = host(6);
    assert_eq!(t.enter(&mut env, player), Err(Error::AlreadyEntered));
    assert_eq!(env.effects, vec![Effect::RequireAuth(player)]);
}

#[test]
fn pool_does_not_overflow() {
    let mut t = running(i128::MAX, vec![10_000], 3);
    let mut env = host(5);
    assert_eq!(t.enter(&mut env, account(4)), Err(Error::Overflow));
    assert_eq!(env.effects.len(), 2);
    assert_eq!(t.get_current_round().unwrap().prize_pool, i128::MAX);
    assert_eq!(
        t.finalise_round(&mut host(WEEK), account(ADMIN), vec![account(3)]),
        Err(Error::Overflow)
    );
    assert!(!t.get_current_round().unwrap().finalised);
}

#[test]
fn best_score_counts() {
    let mut t = running(100, vec![10_000], 3);
    let (admin, player) = (account(ADMIN), account(3));
    assert_eq!(t.post_score(&mut host(5), admin, account(4), 9), Err(Error::NotEntered));
    assert_eq!(t.get_player_score(1, player), 0);
    assert_eq!(t.post_score(&mut host(5), admin, player, 70), Ok(()));
    let mut env = host(6);
    assert_eq!(t.post_score(&mut env, admin, player, 40), Ok(()));
    assert_eq!(
        env.effects,
        vec![
            Effect::RequireAuth(admin),
            Effect::Store(DataKey::PlayerScore(1, player)),
            bump(DataKey::PlayerScore(1, player)),
            Effect::Publish(Event::ScorePosted(ScorePosted { round_id: 1, player, score: 70 })),
        ]
    );
    assert_eq!(t.get_player_score(1, player), 70);
    assert_eq!(t.post_score(&mut host(7), admin, player, 71), Ok(()));
    assert_eq!(t.get_player_score(1, player), 71);
    assert_eq!(t.get_player_score(2, player), 0);
}

#[test]
fn winners_share_the_pool_once() {
    let mut t = running(101, vec![6_000, 3_000, 1_000], 5);
    let admin = account(ADMIN);
    let winners = vec![account(4), account(3), account(5), account(6)];
    let mut env = host(WEEK);
    assert_eq!(t.finalise_round(&mut env, admin, winners.clone()), Ok(303));
    assert_eq!(
        env.effects,
        vec![
            Effect::RequireAuth(admin),
            prize(account(4), 181),
            prize(account(3), 90),
            prize(account(5), 30),
            Effect::Store(DataKey::RoundMeta(1)),
            Effect::Publish(Event::RoundFinalised(RoundFinalised {
                round_id: 1,
                total_prize: 303
            })),
        ]
    );
    assert!(t.get_current_round().unwrap().finalised);
    let mut env = host(WEEK);
    assert_eq!(t.finalise_round(&mut env, admin, winners), Err(Error::RoundNotEnded));
    assert_eq!(env.effects, vec![Effect::RequireAuth(admin)]);
}

#[test]
fn nothing_is_paid_before_the_deadline() {
    let mut t = running(100, vec![10_000], 3);
    let admin = account(ADMIN);
    for now in [1_000, WEEK - 1] {
        let mut env = host(now);
        assert_eq!(
            t.finalise_round(&mut env, admin, vec![account(3)]),
            Err(Error::RoundNotEnded)
        );
        assert_eq!(env.effects, vec![Effect::RequireAuth(admin)]);
        assert!(!t.get_current_round().unwrap().finalised);
    }
    let mut env = host(WEEK);
    assert_eq!(t.finalise_round(&mut env, admin, vec![account(3)]), Ok(100));
    assert_eq!(env.effects[1], prize(account(3), 100));
}

#[test]
fn fewer_winners_than_ratios() {
    let mut t = running(100, vec![5_000, 0, 5_000], 5);
    let mut env = host(WEEK);
    assert_eq!(
        t.finalise_round(&mut env, account(ADMIN), vec![account(3), account(4)]),
        Ok(300)
    );
    assert_eq!(env.effects[1], prize(account(3), 150));
    assert_eq!(env.effects[2], Effect::Store(DataKey::RoundMeta(1)));
}

#[test]
fn tournament_error_codes() {
    let errors = [
        Error::AlreadyInitialized,
        Error::NotInitialized,
        Error::NotAuthorized,
        Error::NoActiveRound,
        Error::RoundAlreadyOpen,
        Error::RoundNotEnded,
        Error::AlreadyEntered,
        Error::NotEntered,
        Error::InvalidConfig,
        Error::Overflow,
    ];
    let codes: Vec<u32> = errors.iter().map(|e| e.code()).collect();
    assert_eq!(codes, vec![1, 2, 3, 4, 5, 6, 7, 8, 9, 10]);
}
