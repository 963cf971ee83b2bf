use stellarcade::address::{Address, Key, Symbol};
use stellarcade::bps::total;
use stellarcade::env::{Effect, Env};
use stellarcade::table::Table;

#[test]
fn addresses_of_accounts_and_contracts_differ() {
    let mut bytes = [4u8; 32];
    let account = Address::Account(bytes);
    assert!(account.same(&Address::Account([4; 32])));
    assert!(!account.same(&Address::Contract([4; 32])));
    bytes[31] = 5;
    assert!(!account.same(&Address::Account(bytes)));
    assert!(Address::Contract(bytes).same(&Address::Contract(bytes)));
}

#[test]
fn symbols_are_told_apart_by_every_byte() {
    let symbol = Symbol { bytes: [b'A'; 32] };
    let mut bytes = [b'A'; 32];
    assert!(symbol.same(&Symbol { bytes }));
    bytes[0] = b'B';
    assert!(!symbol.same(&Symbol { bytes }));
}

#[test]
fn pairs_are_told_apart_by_both_parts() {
    assert!((1u32, 2u64).same(&(1, 2)));
    assert!(!(1u32, 2u64).same(&(1, 3)));
    assert!(!(1u32, 2u64).same(&(0, 2)));
}

#[test]
fn table_holds_one_entry_for_each_key() {
    let mut table: Table<u32, u64> = Table::new();
    assert!(!table.has(&1));
    assert_eq!(table.get(&1), None);
    table.set(1, 10);
    table.set(2, 20);
    table.set(1, 11);
    assert_eq!(table.get(&1), Some(&11));
    assert_eq!(table.get(&2), Some(&20));
    table.remove(&1);
    assert!(!table.has(&1));
    assert_eq!(table.get(&2), Some(&20));
    table.remove(&1);
    table.set(1, 12);
    assert_eq!(table.get(&1), Some(&12));
}

#[test]
fn shares_add_up() {
    assert_eq!(total(&vec![]), 0);
    assert_eq!(total(&vec![6_000, 3_000, 1_000]), 10_000);
    assert_eq!(total(&vec![u32::MAX, 1]), u32::MAX);
}

#[test]
fn requests_keep_their_order() {
    let contract = Address::Contract([1; 32]);
    let player = Address::Account([2; 32]);
    let mut env: Env<u32, bool> = Env::new(5, contract);
    env.require_auth(player);
    env.transfer(contract, player, contract, -1);
    env.store(7);
    env.bump(7);
    env.remove(8);
    env.publish(true);
    assert_eq!(
        env.effects,
        vec![
            Effect::RequireAuth(player),
            Effect::Transfer { token: contract, from: player, to: contract, amount: -1 },
            Effect::Store(7),
            Effect::ExtendTtl { key: 7, threshold: 518_400, extend_to: 518_400 },
            Effect::Remove(8),
            Effect::Publish(true),
        ]
    );
    assert_eq!((env.timestamp, env.contract), (5, contract));
}
