use stellarcade::address::{Address, Symbol};
use stellarcade::env::{Effect, Env, PERSISTENT_BUMP_LEDGERS};
use stellarcade::live_odds::{
    DataKey, Error, Event, LiveOdds, MarketClosed, MarketOdds, OddsEntry, OddsPosted,
};

fn account(n: u8) -> Address {
    Address::Account([n; 32])
}

fn symbol(name: &str) -> Symbol {
    let mut bytes = [0u8; 32];
    bytes[..name.len()].copy_from_slice(name.as_bytes());
    Symbol { bytes }
}

fn host(now: u64) -> Env<DataKey, Event> {
    Env::new(now, Address::Contract([0; 32]))
}

fn odds(heads: u32, tails: u32) -> Vec<OddsEntry> {
    vec![
        OddsEntry { outcome_label: symbol("HEADS"), implied_prob_bps: heads },
        OddsEntry { outcome_label: symbol("TAILS"), implied_prob_bps: tails },
    ]
}

const ADMIN: u8 = 1;
const ORACLE: u8 = 2;

fn live() -> LiveOdds {
    let mut live = LiveOdds::new();
    assert_eq!(live.init(&mut host(0), account(ADMIN), account(ORACLE)), Ok(()));
    live
}

#[test]
fn post_and_get_odds() {
    let mut live = LiveOdds::new();
    let mut env = host(0);
    let admin = account(ADMIN);
    let oracle = account(ORACLE);
    assert_eq!(live.init(&mut env, admin, oracle), Ok(()));

    let market_id = symbol("COIN_FLIP");
    let outcomes = vec![
        OddsEntry { outcome_label: symbol("HEADS"), implied_prob_bps: 5000u32 },
        OddsEntry { outcome_label: symbol("TAILS"), implied_prob_bps: 5000u32 },
    ];

    assert_eq!(live.post_odds(&mut env, oracle, market_id, outcomes), Ok(()));
    let market = live.get_odds(market_id).unwrap();
    assert!(market.is_open);
    assert_eq!(market.outcomes.len(), 2);
}

#[test]
fn live_odds_are_set_up_once() {
    let mut live = LiveOdds::new();
    let mut env = host(0);
    assert_eq!(live.init(&mut env, account(ADMIN), account(ORACLE)), Ok(()));
    assert_eq!(
        env.effects,
        vec![
            Effect::RequireAuth(account(ADMIN)),
            Effect::Store(DataKey::Admin),
            Effect::Store(DataKey::Oracle),
        ]
    );
    assert_eq!(
        live.init(&mut host(0), account(9), account(9)),
        Err(Error::AlreadyInitialized)
    );
    assert_eq!(live.get_oracle(), account(ORACLE));
}

#[test]
fn live_odds_must_be_set_up_first() {
    let mut live = LiveOdds::new();
    let mut env = host(0);
    let id = symbol("COIN_FLIP");
    assert_eq!(
        live.post_odds(&mut env, account(ORACLE), id, odds(1, 1)),
        Err(Error::NotInitialized)
    );
    assert_eq!(live.close_market(&mut env, account(ADMIN), id), Err(Error::NotInitialized));
    assert_eq!(env.effects, vec![]);
    assert_eq!(live.get_odds(id), Err(Error::MarketNotFound));
}

#[test]
fn only_the_oracle_posts() {
    let mut live = live();
    let id = symbol("COIN_FLIP");
    for caller in [account(ADMIN), account(7)] {
        let mut env = host(0);
        assert_eq!(
            live.post_odds(&mut env, caller, id, odds(5_000, 5_000)),
            Err(Error::NotAuthorized)
        );
        assert_eq!(env.effects, vec![Effect::RequireAuth(caller)]);
    }
    assert_eq!(live.get_odds(id), Err(Error::MarketNotFound));
}

#[test]
fn posted_odds_are_served() {
    let mut live = live();
    let (oracle, id) = (account(ORACLE), symbol("COIN_FLIP"));
    let mut env = host(77);
    assert_eq!(live.post_odds(&mut env, oracle, id, odds(5_200, 5_100)), Ok(()));
    assert_eq!(
        env.effects,
        vec![
            Effect::RequireAuth(oracle),
            Effect::Store(DataKey::Market(id)),
            Effect::ExtendTtl {
                key: DataKey::Market(id),
                threshold: PERSISTENT_BUMP_LEDGERS,
                extend_to: PERSISTENT_BUMP_LEDGERS,
            },
            Effect::Publish(Event::OddsPosted(OddsPosted {
                market_id: id,
                last_updated_ts: 77
            })),
        ]
    );
    assert_eq!(
        live.get_odds(id),
        Ok(MarketOdds {
            market_id: id,
            outcomes: odds(5_200, 5_100),
            last_updated_ts: 77,
            is_open: true,
        })
    );
    assert_eq!(live.post_odds(&mut host(80), oracle, id, odds(6_000, 4_400)), Ok(()));
    assert_eq!(live.get_odds(id).unwrap().outcomes, odds(6_000, 4_400));
    assert_eq!(live.get_odds(id).unwrap().last_updated_ts, 80);
    assert_eq!(live.get_odds(symbol("COIN_FLIPS")), Err(Error::MarketNotFound));
}

#[test]
fn odds_add_up_to_no_more_than_twice_the_whole() {
    let mut live = live();
    let (oracle, id) = (account(ORACLE), symbol("COIN_FLIP"));
    for outcomes in [vec![], odds(0, 0), odds(10_000, 10_001), odds(u32::MAX, 2)] {
        let mut env = host(0);
        assert_eq!(live.post_odds(&mut env, oracle, id, outcomes), Err(Error::InvalidOdds));
        assert_eq!(env.effects, vec![Effect::RequireAuth(oracle)]);
    }
    assert_eq!(live.post_odds(&mut host(0), oracle, id, odds(0, 1)), Ok(()));
    assert_eq!(live.post_odds(&mut host(0), oracle, id, odds(10_000, 10_000)), Ok(()));
}

#[test]
fn no_outcome_is_more_than_certain() {
    let mut live = live();
    let (oracle, id) = (account(ORACLE), symbol("M"));
    let one = |bps: u32| {
        vec![OddsEntry { outcome_label: symbol("A"), implied_prob_bps: bps }]
    };
    for bps in [10_001, 15_000, 20_000] {
        assert_eq!(
            live.post_odds(&mut host(0), oracle, id, one(bps)),
            Err(Error::InvalidOdds)
        );
    }
    assert_eq!(live.post_odds(&mut host(0), oracle, id, odds(1, 10_001)), Err(Error::InvalidOdds));
    assert_eq!(live.get_odds(id), Err(Error::MarketNotFound));
    assert_eq!(live.post_odds(&mut host(0), oracle, id, one(10_000)), Ok(()));
}

#[test]
fn closed_market_keeps_its_odds() {
    let mut live = live();
    let (admin, oracle, id) = (account(ADMIN), account(ORACLE), symbol("COIN_FLIP"));
    assert_eq!(live.close_market(&mut host(0), admin, id), Err(Error::MarketNotFound));
    assert_eq!(live.post_odds(&mut host(5), oracle, id, odds(5_000, 5_000)), Ok(()));
    assert_eq!(
        live.close_market(&mut host(6), account(7), id),
        Err(Error::NotAuthorized)
    );

    let mut env = host(6);
    assert_eq!(live.close_market(&mut env, admin, id), Ok(()));
    assert_eq!(
        env.effects,
        vec![
            Effect::RequireAuth(admin),
            Effect::Store(DataKey::Market(id)),
            Effect::Publish(Event::MarketClosed(MarketClosed { market_id: id })),
        ]
    );
    let closed = MarketOdds {
        market_id: id,
        outcomes: odds(5_000, 5_000),
        last_updated_ts: 5,
        is_open: false,
    };
    assert_eq!(live.get_odds(id), Ok(closed.clone()));

    let mut env = host(7);
    assert_eq!(
        live.post_odds(&mut env, oracle, id, odds(9_000, 1_000)),
        Err(Error::MarketClosed)
    );
    assert_eq!(env.effects, vec![Effect::RequireAuth(oracle)]);
    assert_eq!(
        live.post_odds(&mut host(7), oracle, id, odds(0, 0)),
        Err(Error::InvalidOdds)
    );
    assert_eq!(live.get_odds(id), Ok(closed));
    assert_eq!(live.close_market(&mut host(8), oracle, id), Ok(()));
    assert_eq!(
        live.post_odds(&mut host(8), oracle, symbol("DICE"), odds(5_000, 5_000)),
        Ok(())
    );
}

#[test]
fn live_odds_error_codes() {
    let errors = [
        Error::AlreadyInitialized,
        Error::NotInitialized,
        Error::NotAuthorized,
        Error::MarketNotFound,
        Error::InvalidOdds,
        Error::MarketClosed,
    ];
    let codes: Vec<u32> = errors.iter().map(|e| e.code()).collect();
    assert_eq!(codes, vec![1, 2, 3, 4, 5, 6]);
}
