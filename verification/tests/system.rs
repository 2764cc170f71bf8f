use ledger_runtime::storage_map::StorageMap;
use ledger_runtime::system::Pallet;

#[test]
fn block_number_starts_at_zero_and_steps_by_one() {
    let mut system = Pallet::new();
    assert_eq!(system.block_number(), 0);
    system.inc_block_number();
    assert_eq!(system.block_number(), 1);
    system.inc_block_number();
    assert_eq!(system.block_number(), 2);
}

#[test]
fn nonce_steps_by_one_per_account() {
    let mut system = Pallet::new();
    let alice = "alice".to_string();
    let bob = "bob".to_string();
    assert_eq!(system.nonce(&alice), 0);
    system.inc_nonce(&alice);
    system.inc_nonce(&alice);
    system.inc_nonce(&bob);
    assert_eq!(system.nonce(&alice), 2);
    assert_eq!(system.nonce(&bob), 1);
}

#[test]
fn storage_map_insert_get_remove() {
    let mut map: StorageMap<u128> = StorageMap::new();
    let alice = "alice".to_string();
    let bob = "bob".to_string();
    assert_eq!(map.get(&alice), None);
    map.insert(alice.clone(), 10);
    map.insert(bob.clone(), 20);
    assert_eq!(map.get(&alice), Some(&10));
    assert_eq!(map.get(&bob), Some(&20));
    map.insert(alice.clone(), 11);
    assert_eq!(map.get(&alice), Some(&11));
    map.remove(&alice);
    assert_eq!(map.get(&alice), None);
    assert_eq!(map.get(&bob), Some(&20));
    map.remove(&alice);
    assert_eq!(map.get(&bob), Some(&20));
}
