use stellarcade::address::Address;
use stellarcade::env::{Effect, Env, PERSISTENT_BUMP_LEDGERS};
use stellarcade::player_insurance::{
    DataKey, Error, Event, LossRecorded, PlayerInsurance, PlayerInsuranceRecord,
    ReimbursementClaimed, WinRecorded,
};

fn account(n: u8) -> Address {
    Address::Account([n; 32])
}

fn contract() -> Address {
    Address::Contract([0; 32])
}

fn host() -> Env<DataKey, Event> {
    Env::new(0, contract())
}

fn bump(key: DataKey) -> Effect<DataKey, Event> {
    Effect::ExtendTtl {
        key,
        threshold: PERSISTENT_BUMP_LEDGERS,
        extend_to: PERSISTENT_BUMP_LEDGERS,
    }
}

const ADMIN: u8 = 1;
const TOKEN: u8 = 2;
const PLAYER: u8 = 3;

/// Three losses in a row are worth 500 units.
fn insurance() -> PlayerInsurance {
    let mut insurance = PlayerInsurance::new();
    assert_eq!(
        insurance.init(&mut host(), account(ADMIN), account(TOKEN), 3, 500),
        Ok(())
    );
    insurance
}

fn lose(insurance: &mut PlayerInsurance, times: u32) {
    for _ in 0..times {
        assert!(insurance.record_loss(&mut host(), account(ADMIN), account(PLAYER)).is_ok());
    }
}

fn win(insurance: &mut PlayerInsurance) {
    assert_eq!(insurance.record_win(&mut host(), account(ADMIN), account(PLAYER)), Ok(()));
}

#[test]
fn loss_streak_increments() {
    let mut insurance = PlayerInsurance::new();
    let mut env = host();
    let admin = account(ADMIN);
    let token = account(TOKEN);
    let player = account(PLAYER);

    assert_eq!(insurance.init(&mut env, admin, token, 3u32, 500i128), Ok(()));
    assert!(insurance.record_loss(&mut env, admin, player).is_ok());
    assert!(insurance.record_loss(&mut env, admin, player).is_ok());
    let streak = insurance.record_loss(&mut env, admin, player).unwrap();
    assert_eq!(streak, 3u32);
}

#[test]
fn win_resets_streak() {
    let mut insurance = PlayerInsurance::new();
    let mut env = host();
    let admin = account(ADMIN);
    let token = account(TOKEN);
    let player = account(PLAYER);

    assert_eq!(insurance.init(&mut env, admin, token, 3u32, 500i128), Ok(()));
    assert!(insurance.record_loss(&mut env, admin, player).is_ok());
    assert!(insurance.record_loss(&mut env, admin, player).is_ok());
    assert_eq!(insurance.record_win(&mut env, admin, player), Ok(()));

    let rec = insurance.get_player_record(player).unwrap();
    assert_eq!(rec.consecutive_losses, 0u32);
}

#[test]
fn insurance_is_set_up_once() {
    let mut insurance = PlayerInsurance::new();
    let mut env = host();
    assert_eq!(insurance.init(&mut env, account(ADMIN), account(TOKEN), 3, 500), Ok(()));
    assert_eq!(
        env.effects,
        vec![
            Effect::RequireAuth(account(ADMIN)),
            Effect::Store(DataKey::Admin),
            Effect::Store(DataKey::Token),
            Effect::Store(DataKey::MinLossStreak),
            Effect::Store(DataKey::ReimbursementAmount),
        ]
    );
    assert_eq!(
        insurance.init(&mut host(), account(9), account(TOKEN), 1, 1),
        Err(Error::AlreadyInitialized)
    );
    assert_eq!(insurance.config.unwrap().min_loss_streak, 3);
}

#[test]
fn insurance_must_be_set_up_first() {
    let mut insurance = PlayerInsurance::new();
    let mut env = host();
    let (admin, player) = (account(ADMIN), account(PLAYER));
    assert_eq!(insurance.record_loss(&mut env, admin, player), Err(Error::NotInitialized));
    assert_eq!(insurance.record_win(&mut env, admin, player), Err(Error::NotInitialized));
    assert_eq!(insurance.claim_reimbursement(&mut env, player), Err(Error::NotInitialized));
    assert_eq!(env.effects, vec![]);
}

#[test]
fn rounds_are_reported_by_the_admin() {
    let mut insurance = insurance();
    let player = account(PLAYER);
    let mut env = host();
    assert_eq!(insurance.record_loss(&mut env, player, player), Err(Error::NotAuthorized));
    assert_eq!(insurance.record_win(&mut env, player, player), Err(Error::NotAuthorized));
    assert_eq!(env.effects, vec![Effect::RequireAuth(player), Effect::RequireAuth(player)]);
    assert_eq!(insurance.get_player_record(player), None);
}

#[test]
fn losses_and_wins_are_counted() {
    let mut insurance = insurance();
    let (admin, player) = (account(ADMIN), account(PLAYER));
    let mut env = host();
    assert_eq!(insurance.record_loss(&mut env, admin, player), Ok(1));
    assert_eq!(
        env.effects,
        vec![
            Effect::RequireAuth(admin),
            Effect::Store(DataKey::PlayerRecord(player)),
            bump(DataKey::PlayerRecord(player)),
            Effect::Publish(Event::LossRecorded(LossRecorded { player, consecutive_losses: 1 })),
        ]
    );
    let mut env = host();
    assert_eq!(insurance.record_win(&mut env, admin, player), Ok(()));
    assert_eq!(
        env.effects,
        vec![
            Effect::RequireAuth(admin),
            Effect::Store(DataKey::PlayerRecord(player)),
            bump(DataKey::PlayerRecord(player)),
            Effect::Publish(Event::WinRecorded(WinRecorded { player })),
        ]
    );
    lose(&mut insurance, 2);
    assert_eq!(
        insurance.get_player_record(player),
        Some(PlayerInsuranceRecord {
            consecutive_losses: 2,
            total_losses: 3,
            total_wins: 1,
            last_claim_streak_end: 0,
        })
    );
}

#[test]
fn claim_needs_a_streak() {
    let mut insurance = insurance();
    let player = account(PLAYER);
    assert_eq!(
        insurance.claim_reimbursement(&mut host(), player),
        Err(Error::StreakNotQualified)
    );
    lose(&mut insurance, 2);
    assert_eq!(
        insurance.claim_reimbursement(&mut host(), player),
        Err(Error::StreakNotQualified)
    );
    win(&mut insurance);
    lose(&mut insurance, 1);
    assert_eq!(
        insurance.claim_reimbursement(&mut host(), player),
        Err(Error::StreakNotQualified)
    );
    lose(&mut insurance, 2);
    let mut env = host();
    assert_eq!(insurance.claim_reimbursement(&mut env, player), Ok(500));
    assert_eq!(
        env.effects,
        vec![
            Effect::RequireAuth(player),
            Effect::Store(DataKey::PlayerRecord(player)),
            bump(DataKey::PlayerRecord(player)),
            Effect::Store(DataKey::TotalClaimsPaid),
            Effect::Transfer {
                token: account(TOKEN),
                from: contract(),
                to: player,
                amount: 500
            },
            Effect::Publish(Event::ReimbursementClaimed(ReimbursementClaimed {
                player,
                amount: 500,
                at_streak: 3,
            })),
        ]
    );
    assert_eq!(insurance.get_total_claims_paid(), 1);
}

#[test]
fn no_second_claim_without_another_loss() {
    let mut insurance = insurance();
    let player = account(PLAYER);
    lose(&mut insurance, 3);
    assert_eq!(insurance.claim_reimbursement(&mut host(), player), Ok(500));
    let mut env = host();
    assert_eq!(insurance.claim_reimbursement(&mut env, player), Err(Error::AlreadyClaimed));
    assert_eq!(env.effects, vec![Effect::RequireAuth(player)]);
    lose(&mut insurance, 1);
    assert_eq!(insurance.claim_reimbursement(&mut host(), player), Ok(500));
    assert_eq!(insurance.get_total_claims_paid(), 2);
    assert_eq!(insurance.get_player_record(player).unwrap().last_claim_streak_end, 4);

}

#[test]
fn every_streak_qualifies_afresh() {
    let mut insurance = insurance();
    let player = account(PLAYER);
    lose(&mut insurance, 3);
    assert_eq!(insurance.claim_reimbursement(&mut host(), player), Ok(500));
    win(&mut insurance);
    assert_eq!(insurance.get_player_record(player).unwrap().last_claim_streak_end, 0);
    lose(&mut insurance, 2);
    assert_eq!(
        insurance.claim_reimbursement(&mut host(), player),
        Err(Error::StreakNotQualified)
    );
    lose(&mut insurance, 1);
    assert_eq!(insurance.claim_reimbursement(&mut host(), player), Ok(500));
    assert_eq!(insurance.get_total_claims_paid(), 2);
    assert_eq!(
        insurance.claim_reimbursement(&mut host(), player),
        Err(Error::AlreadyClaimed)
    );
}

#[test]
fn streak_does_not_overflow() {
    let mut insurance = insurance();
    let player = account(PLAYER);
    let record = PlayerInsuranceRecord {
        consecutive_losses: u32::MAX,
        total_losses: u32::MAX,
        total_wins: 0,
        last_claim_streak_end: 0,
    };
    insurance.records.set(player, record);
    assert_eq!(
        insurance.record_loss(&mut host(), account(ADMIN), player),
        Err(Error::Overflow)
    );
    assert_eq!(insurance.get_player_record(player), Some(record));
    win(&mut insurance);
    lose(&mut insurance, 1);
    assert_eq!(insurance.get_player_record(player).unwrap().total_losses, u32::MAX);
}

#[test]
fn insurance_error_codes() {
    let errors = [
        Error::AlreadyInitialized,
        Error::NotInitialized,
        Error::NotAuthorized,
        Error::StreakNotQualified,
        Error::AlreadyClaimed,
        Error::InsufficientPool,
        Error::InvalidAmount,
        Error::Overflow,
    ];
    let codes: Vec<u32> = errors.iter().map(|e| e.code()).collect();
    assert_eq!(codes, vec![1, 2, 3, 4, 5, 6, 7, 8]);
}
