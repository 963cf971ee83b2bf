use stellarcade::address::Address;
use stellarcade::env::{Effect, Env, PERSISTENT_BUMP_LEDGERS};
use stellarcade::game_subscription::{
    DataKey, Error, Event, GameSubscription, PlanUpdated, Subscribed, SubscriptionPlan,
    SubscriptionRecord,
};

fn account(n: u8) -> Address {
    Address::Account([n; 32])
}

fn contract() -> Address {
    Address::Contract([0; 32])
}

fn host(now: u64) -> Env<DataKey, Event> {
    Env::new(now, contract())
}

const ADMIN: u8 = 1;
const TOKEN: u8 = 2;
const PLAYER: u8 = 3;

fn plan(plan_id: u32, duration_secs: u64, price: i128) -> SubscriptionPlan {
    SubscriptionPlan { plan_id, duration_secs, price, is_active: true }
}

fn subscription(plans: &[SubscriptionPlan]) -> GameSubscription {
    let mut subscription = GameSubscription::new();
    assert_eq!(subscription.init(&mut host(0), account(ADMIN), account(TOKEN)), Ok(()));
    for plan in plans {
        assert_eq!(subscription.set_plan(&mut host(0), account(ADMIN), *plan), Ok(()));
    }
    subscription
}

#[test]
fn set_and_get_plan() {
    let mut subscription = GameSubscription::new();
    let mut env = host(0);
    let admin = account(ADMIN);
    let token = account(TOKEN);
    assert_eq!(subscription.init(&mut env, admin, token), Ok(()));

    let plan = SubscriptionPlan {
        plan_id: 1,
        duration_secs: 2_592_000,
        price: 500,
        is_active: true,
    };
    assert_eq!(subscription.set_plan(&mut env, admin, plan), Ok(()));

    let plan = subscription.get_plan(1u32).unwrap();
    assert_eq!(plan.duration_secs, 2_592_000u64);
}

#[test]
fn unsubscribed_player_is_not_subscribed() {
    let mut subscription = GameSubscription::new();
    let mut env = host(0);
    let admin = account(ADMIN);
    let token = account(TOKEN);
    assert_eq!(subscription.init(&mut env, admin, token), Ok(()));

    let player = account(PLAYER);
    assert!(!subscription.is_subscribed(&env, player));
}

#[test]
fn subscription_is_set_up_once() {
    let mut subscription = GameSubscription::new();
    let mut env = host(0);
    assert_eq!(subscription.init(&mut env, account(ADMIN), account(TOKEN)), Ok(()));
    assert_eq!(
        env.effects,
        vec![
            Effect::RequireAuth(account(ADMIN)),
            Effect::Store(DataKey::Admin),
            Effect::Store(DataKey::Token),
        ]
    );
    assert_eq!(
        subscription.init(&mut host(0), account(9), account(TOKEN)),
        Err(Error::AlreadyInitialized)
    );
    assert_eq!(subscription.config.unwrap().admin, account(ADMIN));
}

#[test]
fn subscription_must_be_set_up_first() {
    let mut subscription = GameSubscription::new();
    let mut env = host(0);
    assert_eq!(
        subscription.set_plan(&mut env, account(ADMIN), plan(1, 10, 5)),
        Err(Error::NotInitialized)
    );
    assert_eq!(
        subscription.subscribe(&mut env, account(PLAYER), 1),
        Err(Error::NotInitialized)
    );
    assert_eq!(env.effects, vec![]);
}

#[test]
fn plans_are_set_by_the_admin() {
    let mut subscription = subscription(&[plan(1, 10, 5)]);
    let admin = account(ADMIN);
    let mut env = host(0);
    assert_eq!(
        subscription.set_plan(&mut env, account(PLAYER), plan(1, 10, 0)),
        Err(Error::NotAuthorized)
    );
    assert_eq!(env.effects, vec![Effect::RequireAuth(account(PLAYER))]);
    let mut env = host(0);
    assert_eq!(subscription.set_plan(&mut env, admin, plan(1, 20, 7)), Ok(()));
    assert_eq!(
        env.effects,
        vec![
            Effect::RequireAuth(admin),
            Effect::Store(DataKey::Plan(1)),
            Effect::Publish(Event::PlanUpdated(PlanUpdated { plan_id: 1 })),
        ]
    );
    assert_eq!(subscription.get_plan(1), Ok(plan(1, 20, 7)));
    assert_eq!(subscription.get_plan(2), Err(Error::PlanNotFound));
}

#[test]
fn subscribing_lasts_for_the_duration() {
    let mut subscription = subscription(&[plan(1, 100, 500)]);
    let player = account(PLAYER);
    let mut env = host(1_000);
    assert_eq!(subscription.subscribe(&mut env, player, 1), Ok(1_100));
    assert_eq!(
        env.effects,
        vec![
            Effect::RequireAuth(player),
            Effect::Transfer { token: account(TOKEN), from: player, to: contract(), amount: 500 },
            Effect::Store(DataKey::Subscription(player)),
            Effect::ExtendTtl {
                key: DataKey::Subscription(player),
                threshold: PERSISTENT_BUMP_LEDGERS,
                extend_to: PERSISTENT_BUMP_LEDGERS,
            },
            Effect::Store(DataKey::TotalRevenue),
            Effect::Publish(Event::Subscribed(Subscribed {
                player,
                plan_id: 1,
                expires_ts: 1_100,
                price: 500,
            })),
        ]
    );
    assert!(subscription.is_subscribed(&host(1_099), player));
    assert!(!subscription.is_subscribed(&host(1_100), player));
    assert!(!subscription.is_subscribed(&host(1_000), account(7)));
}

#[test]
fn durations_add_up() {
    let mut subscription = subscription(&[plan(1, 100, 500), plan(2, 30, 200)]);
    let player = account(PLAYER);
    assert_eq!(subscription.subscribe(&mut host(1_000), player, 1), Ok(1_100));
    assert_eq!(subscription.subscribe(&mut host(1_010), player, 2), Ok(1_130));
    assert_eq!(
        subscription.get_subscription(player),
        Some(SubscriptionRecord { plan_id: 2, expires_ts: 1_130 })
    );
    assert_eq!(subscription.subscribe(&mut host(2_000), player, 1), Ok(2_100));
    assert_eq!(subscription.get_total_revenue(), 1_200);
    assert_eq!(subscription.get_subscription(account(7)), None);
}

#[test]
fn only_active_plans_are_sold() {
    let mut subscription = subscription(&[SubscriptionPlan {
        is_active: false,
        ..plan(1, 100, 500)
    }]);
    let player = account(PLAYER);
    let mut env = host(0);
    assert_eq!(subscription.subscribe(&mut env, player, 1), Err(Error::PlanNotFound));
    assert_eq!(subscription.subscribe(&mut env, player, 2), Err(Error::PlanNotFound));
    assert_eq!(env.effects, vec![Effect::RequireAuth(player), Effect::RequireAuth(player)]);
    assert!(!subscription.get_plan(1).unwrap().is_active);
}

#[test]
fn subscription_does_not_overflow() {
    let mut subscription =
        subscription(&[plan(1, u64::MAX, 1), plan(2, 1, i128::MAX), plan(3, 1, 1)]);
    let player = account(PLAYER);
    let mut env = host(1);
    assert_eq!(subscription.subscribe(&mut env, player, 1), Err(Error::Overflow));
    assert_eq!(env.effects.len(), 2);
    assert_eq!(subscription.get_subscription(player), None);
    assert_eq!(subscription.subscribe(&mut host(1), player, 2), Ok(2));
    assert_eq!(subscription.subscribe(&mut host(1), player, 3), Err(Error::Overflow));
    assert_eq!(subscription.get_total_revenue(), i128::MAX);
    assert_eq!(subscription.get_subscription(player).unwrap().expires_ts, 2);
}

#[test]
fn subscription_error_codes() {
    let errors = [
        Error::AlreadyInitialized,
        Error::NotInitialized,
        Error::NotAuthorized,
        Error::PlanNotFound,
        Error::InvalidAmount,
        Error::Overflow,
    ];
    let codes: Vec<u32> = errors.iter().map(|e| e.code()).collect();
    assert_eq!(codes, vec![1, 2, 3, 4, 5, 6]);
}
