use ledger_runtime::balances::Pallet;
use ledger_runtime::support::RuntimeError;

#[test]
fn init_balances() {
    let mut balances = Pallet::new();

    let alice = "alice".to_string();
    let bob = "bob".to_string();

    assert_eq!(balances.balance(&alice), 0);
    balances.set_balance(&alice, 100);
    assert_eq!(balances.balance(&alice), 100);
    assert_eq!(balances.balance(&bob), 0);
}

#[test]
fn transfer_balance() {
    let mut balances = Pallet::new();

    let alice = "alice".to_string();
    let bob = "bob".to_string();

    assert_eq!(
        balances.transfer(&alice, &bob, 51),
        Err(RuntimeError::InsufficientFunds)
    );

    balances.set_balance(&alice, 100);
    assert_eq!(balances.transfer(&alice, &bob, 51), Ok(()));
    assert_eq!(balances.balance(&alice), 49);
    assert_eq!(balances.balance(&bob), 51);

    assert_eq!(
        balances.transfer(&alice, &bob, 51),
        Err(RuntimeError::InsufficientFunds)
    );
}

#[test]
fn transfer_conserves_and_moves_exactly() {
    let mut balances = Pallet::new();
    let alice = "alice".to_string();
    let bob = "bob".to_string();
    balances.set_balance(&alice, 70);
    balances.set_balance(&bob, 30);
    assert_eq!(balances.transfer(&alice, &bob, 20), Ok(()));
    assert_eq!(balances.balance(&alice), 50);
    assert_eq!(balances.balance(&bob), 50);
    assert_eq!(balances.balance(&alice) + balances.balance(&bob), 100);
}

#[test]
fn failed_transfer_changes_nothing() {
    let mut balances = Pallet::new();
    let alice = "alice".to_string();
    let bob = "bob".to_string();
    balances.set_balance(&alice, 10);
    balances.set_balance(&bob, 7);
    assert_eq!(
        balances.transfer(&alice, &bob, 11),
        Err(RuntimeError::InsufficientFunds)
    );
    assert_eq!(balances.balance(&alice), 10);
    assert_eq!(balances.balance(&bob), 7);
}

#[test]
fn transfer_overflow_rejected() {
    let mut balances = Pallet::new();
    let alice = "alice".to_string();
    let bob = "bob".to_string();
    balances.set_balance(&alice, 5);
    balances.set_balance(&bob, u128::MAX);
    assert_eq!(balances.transfer(&alice, &bob, 1), Err(RuntimeError::Overflow));
    assert_eq!(balances.balance(&alice), 5);
    assert_eq!(balances.balance(&bob), u128::MAX);
}

#[test]
fn self_transfer_keeps_balance() {
    let mut balances = Pallet::new();
    let alice = "alice".to_string();
    balances.set_balance(&alice, 100);
    assert_eq!(balances.transfer(&alice, &alice, 60), Ok(()));
    assert_eq!(balances.balance(&alice), 100);
    assert_eq!(
        balances.transfer(&alice, &alice, 101),
        Err(RuntimeError::InsufficientFunds)
    );
    assert_eq!(balances.balance(&alice), 100);
}

#[test]
fn set_balance_overwrites() {
    let mut balances = Pallet::new();
    let alice = "alice".to_string();
    balances.set_balance(&alice, 100);
    balances.set_balance(&alice, 3);
    assert_eq!(balances.balance(&alice), 3);
}
