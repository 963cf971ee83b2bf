use stellarcade::address::Address;
use stellarcade::env::{Effect, Env, PERSISTENT_BUMP_LEDGERS};
use stellarcade::referral_tracker::{
    DataKey, Error, Event, PlayerRegistered, ReferralChainEntry, ReferralTracker,
    RevenueAttributed,
};

fn account(n: u8) -> Address {
    Address::Account([n; 32])
}

fn host() -> Env<DataKey, Event> {
    Env::new(0, Address::Contract([0; 32]))
}

fn bump(key: DataKey) -> Effect<DataKey, Event> {
    Effect::ExtendTtl {
        key,
        threshold: PERSISTENT_BUMP_LEDGERS,
        extend_to: PERSISTENT_BUMP_LEDGERS,
    }
}

fn entry(n: u8, level: u32, commission_bps: u32) -> ReferralChainEntry {
    ReferralChainEntry { address: account(n), level, commission_bps }
}

const ADMIN: u8 = 1;

fn tracker(rates: Vec<u32>) -> ReferralTracker {
    let mut tracker = ReferralTracker::new();
    assert_eq!(tracker.init(&mut host(), account(ADMIN), rates), Ok(()));
    tracker
}

/// Players 2 to 5, each referred by the one before.
fn line(rates: Vec<u32>) -> ReferralTracker {
    let mut tracker = tracker(rates);
    assert_eq!(tracker.register(&mut host(), account(2), None), Ok(()));
    for n in 3..6 {
        assert_eq!(tracker.register(&mut host(), account(n), Some(account(n - 1))), Ok(()));
    }
    tracker
}

#[test]
fn register_without_referrer() {
    let mut tracker = ReferralTracker::new();
    let mut env = host();
    let admin = account(ADMIN);
    let rates = vec![500u32, 200u32];
    assert_eq!(tracker.init(&mut env, admin, rates), Ok(()));

    let player = account(2);
    assert_eq!(tracker.register(&mut env, player, None), Ok(()));

    let chain = tracker.get_referral_chain(player);
    assert_eq!(chain.len(), 0);
}

#[test]
fn register_with_referrer_builds_chain() {
    let mut tracker = ReferralTracker::new();
    let mut env = host();
    let admin = account(ADMIN);
    let rates = vec![500u32, 200u32];
    assert_eq!(tracker.init(&mut env, admin, rates), Ok(()));

    let referrer = account(2);
    let player = account(3);

    assert_eq!(tracker.register(&mut env, referrer, None), Ok(()));
    assert_eq!(tracker.register(&mut env, player, Some(referrer)), Ok(()));

    let chain = tracker.get_referral_chain(player);
    assert_eq!(chain.len(), 1);
    assert_eq!(chain[0].commission_bps, 500u32);
}

#[test]
fn tracker_is_set_up_once() {
    let mut tracker = ReferralTracker::new();
    let mut env = host();
    assert_eq!(tracker.init(&mut env, account(ADMIN), vec![500, 200]), Ok(()));
    assert_eq!(
        env.effects,
        vec![
            Effect::RequireAuth(account(ADMIN)),
            Effect::Store(DataKey::Admin),
            Effect::Store(DataKey::CommissionRatesBps),
        ]
    );
    assert_eq!(
        tracker.init(&mut host(), account(9), vec![1]),
        Err(Error::AlreadyInitialized)
    );
    assert_eq!(tracker.config.as_ref().unwrap().commission_rates_bps, vec![500, 200]);
}

#[test]
fn rates_are_bounded() {
    let mut tracker = ReferralTracker::new();
    for rates in [vec![], vec![1; 6], vec![9_000, 1_001], vec![u32::MAX, 1]] {
        let mut env = host();
        assert_eq!(tracker.init(&mut env, account(ADMIN), rates), Err(Error::InvalidConfig));
        assert_eq!(env.effects, vec![Effect::RequireAuth(account(ADMIN))]);
    }
    assert_eq!(tracker.init(&mut host(), account(ADMIN), vec![2_000; 5]), Ok(()));
}

#[test]
fn tracker_must_be_set_up_first() {
    let mut tracker = ReferralTracker::new();
    let mut env = host();
    assert_eq!(tracker.register(&mut env, account(2), None), Err(Error::NotInitialized));
    assert_eq!(
        tracker.attribute_revenue(&mut env, account(ADMIN), account(2), 1),
        Err(Error::NotInitialized)
    );
    assert_eq!(env.effects, vec![]);
    assert_eq!(tracker.get_referral_chain(account(2)), vec![]);
}

#[test]
fn players_register_once() {
    let mut tracker = tracker(vec![500, 200]);
    let (referrer, player) = (account(2), account(3));
    assert_eq!(
        tracker.register(&mut host(), player, Some(referrer)),
        Err(Error::ReferrerNotRegistered)
    );
    assert_eq!(tracker.register(&mut host(), player, Some(player)), Err(Error::SelfReferral));
    assert_eq!(tracker.register(&mut host(), referrer, None), Ok(()));

    let mut env = host();
    assert_eq!(tracker.register(&mut env, player, Some(referrer)), Ok(()));
    assert_eq!(
        env.effects,
        vec![
            Effect::RequireAuth(player),
            Effect::Store(DataKey::ReferralCount(referrer)),
            Effect::Store(DataKey::Referrer(player)),
            bump(DataKey::Referrer(player)),
            Effect::Publish(Event::PlayerRegistered(PlayerRegistered {
                player,
                referrer: Some(referrer)
            })),
        ]
    );
    let mut env = host();
    assert_eq!(tracker.register(&mut env, player, None), Err(Error::AlreadyRegistered));
    assert_eq!(env.effects, vec![Effect::RequireAuth(player)]);
    assert_eq!(
        tracker.register(&mut host(), referrer, Some(player)),
        Err(Error::AlreadyRegistered)
    );
    assert_eq!(tracker.get_referral_chain(player), vec![entry(2, 0, 500)]);
}

#[test]
fn registering_without_a_referrer_counts_for_nobody() {
    let mut tracker = tracker(vec![500]);
    let mut env = host();
    let player = account(2);
    assert_eq!(tracker.register(&mut env, player, None), Ok(()));
    assert_eq!(
        env.effects,
        vec![
            Effect::RequireAuth(player),
            Effect::Store(DataKey::Referrer(player)),
            bump(DataKey::Referrer(player)),
            Effect::Publish(Event::PlayerRegistered(PlayerRegistered {
                player,
                referrer: None
            })),
        ]
    );
    assert_eq!(tracker.get_referral_count(player), 0);
}

#[test]
fn chain_goes_up_as_far_as_the_rates() {
    let tracker = line(vec![500, 200, 100, 50]);
    assert_eq!(
        tracker.get_referral_chain(account(5)),
        vec![entry(4, 0, 500), entry(3, 1, 200), entry(2, 2, 100)]
    );
    let tracker = line(vec![500, 200]);
    assert_eq!(
        tracker.get_referral_chain(account(5)),
        vec![entry(4, 0, 500), entry(3, 1, 200)]
    );
    assert_eq!(tracker.get_referral_chain(account(3)), vec![entry(2, 0, 500)]);
    assert_eq!(tracker.get_referral_chain(account(77)), vec![]);
}

#[test]
fn referrals_are_counted() {
    let mut tracker = line(vec![500]);
    assert_eq!(tracker.register(&mut host(), account(8), Some(account(2))), Ok(()));
    assert_eq!(tracker.get_referral_count(account(2)), 2);
    assert_eq!(tracker.get_referral_count(account(3)), 1);
    assert_eq!(tracker.get_referral_count(account(5)), 0);
}

#[test]
fn revenue_is_attributed_by_the_admin() {
    let mut tracker = line(vec![500, 200]);
    let admin = account(ADMIN);
    assert_eq!(
        tracker.attribute_revenue(&mut host(), account(2), account(5), 1),
        Err(Error::NotAuthorized)
    );
    let mut env = host();
    assert_eq!(
        tracker.attribute_revenue(&mut env, admin, account(5), 1_000),
        Ok(vec![entry(4, 0, 500), entry(3, 1, 200)])
    );
    assert_eq!(
        env.effects,
        vec![
            Effect::RequireAuth(admin),
            Effect::Store(DataKey::TotalAttributed),
            Effect::Publish(Event::RevenueAttributed(RevenueAttributed {
                player: account(5),
                gross_amount: 1_000,
                levels_attributed: 2,
            })),
        ]
    );
    assert_eq!(tracker.attribute_revenue(&mut host(), admin, account(2), 500), Ok(vec![]));
    assert_eq!(tracker.get_total_attributed(), 1_500);
    assert_eq!(
        tracker.attribute_revenue(&mut host(), admin, account(2), i128::MAX),
        Err(Error::Overflow)
    );
    assert_eq!(tracker.get_total_attributed(), 1_500);
}

#[test]
fn referral_error_codes() {
    let errors = [
        Error::AlreadyInitialized,
        Error::NotInitialized,
        Error::NotAuthorized,
        Error::AlreadyRegistered,
        Error::SelfReferral,
        Error::ReferrerNotRegistered,
        Error::InvalidConfig,
        Error::Overflow,
    ];
    let codes: Vec<u32> = errors.iter().map(|e| e.code()).collect();
    assert_eq!(codes, vec![1, 2, 3, 4, 5, 6, 7, 8]);
}
