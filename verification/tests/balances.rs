use mine::balances::{Call, Pallet};
use mine::support::{Dispatch, DispatchError};

#[test]
fn init_balances() {
    let mut pallet = Pallet::new();

    assert_eq!(pallet.get_balance(&"Alice".to_string()), 0);
    pallet.set_balance(&"Alice".to_string(), 100);
    assert_eq!(pallet.get_balance(&"Alice".to_string()), 100);
    assert_eq!(pallet.get_balance(&"Bob".to_string()), 0);
}

#[test]
fn transfer_balance() {
    let mut balances = Pallet::new();
    assert_eq!(
        balances
            .transfer("alice".to_string(), "bob".to_string(), 22)
            .map_err(|e| e.message()),
        Err("Not enough funds.")
    );

    balances.set_balance(&"alice".to_string(), 100);
    assert_eq!(
        balances
            .transfer("alice".to_string(), "bob".to_string(), 22)
            .map_err(|e| e.message()),
        Ok(())
    );
    assert_eq!(balances.get_balance(&"alice".to_string()), 78);
    assert_eq!(balances.get_balance(&"bob".to_string()), 22);
    assert_eq!(
        balances
            .transfer("alice".to_string(), "bob".to_string(), 80)
            .map_err(|e| e.message()),
        Err("Not enough funds.")
    );
}

#[test]
fn unknown_account_has_zero_balance() {
    let mut pallet = Pallet::new();
    for name in ["Alice", "Bob", "", "Charlie", "alice"] {
        assert_eq!(pallet.get_balance(&name.to_string()), 0);
    }
    pallet.set_balance(&"Alice".to_string(), 7);
    assert_eq!(
        pallet.transfer("Alice".to_string(), "Bob".to_string(), 3),
        Ok(())
    );
    // accounts that no operation named still have nothing
    assert_eq!(pallet.get_balance(&"Charlie".to_string()), 0);
    assert_eq!(pallet.get_balance(&"alice".to_string()), 0);
    assert_eq!(pallet.get_balance(&"".to_string()), 0);
}

#[test]
fn set_balance_overwrites() {
    let mut pallet = Pallet::new();
    pallet.set_balance(&"Alice".to_string(), 100);
    pallet.set_balance(&"Alice".to_string(), 5);
    assert_eq!(pallet.get_balance(&"Alice".to_string()), 5);
    pallet.set_balance(&"Alice".to_string(), 0);
    assert_eq!(pallet.get_balance(&"Alice".to_string()), 0);
    pallet.set_balance(&"Alice".to_string(), u128::MAX);
    assert_eq!(pallet.get_balance(&"Alice".to_string()), u128::MAX);
}

#[test]
fn transfer_conserves_the_sum_of_both_balances() {
    let cases: [(u128, u128, u128); 5] = [
        (100, 0, 22),
        (100, 50, 100),
        (1, u128::MAX - 1, 1),
        (u128::MAX, 0, u128::MAX),
        (10, 10, 0),
    ];
    for (from_balance, to_balance, amount) in cases {
        let mut pallet = Pallet::new();
        pallet.set_balance(&"from".to_string(), from_balance);
        pallet.set_balance(&"to".to_string(), to_balance);
        pallet.set_balance(&"other".to_string(), 9);
        assert_eq!(
            pallet.transfer("from".to_string(), "to".to_string(), amount),
            Ok(())
        );
        let from_after = pallet.get_balance(&"from".to_string());
        let to_after = pallet.get_balance(&"to".to_string());
        assert_eq!(from_after, from_balance - amount);
        assert_eq!(to_after, to_balance + amount);
        assert_eq!(from_after + to_after, from_balance + to_balance);
        assert_eq!(pallet.get_balance(&"other".to_string()), 9);
    }
}

#[test]
fn failed_transfer_changes_nothing() {
    let mut pallet = Pallet::new();
    pallet.set_balance(&"Alice".to_string(), 10);
    pallet.set_balance(&"Bob".to_string(), u128::MAX - 3);

    // not enough funds
    assert_eq!(
        pallet.transfer("Alice".to_string(), "Bob".to_string(), 11),
        Err(DispatchError::InsufficientFunds)
    );
    assert_eq!(pallet.get_balance(&"Alice".to_string()), 10);
    assert_eq!(pallet.get_balance(&"Bob".to_string()), u128::MAX - 3);

    // the receiver cannot hold more
    assert_eq!(
        pallet.transfer("Alice".to_string(), "Bob".to_string(), 4),
        Err(DispatchError::Overflow)
    );
    assert_eq!(pallet.get_balance(&"Alice".to_string()), 10);
    assert_eq!(pallet.get_balance(&"Bob".to_string()), u128::MAX - 3);

    // the largest amount that still fits is accepted
    assert_eq!(
        pallet.transfer("Alice".to_string(), "Bob".to_string(), 3),
        Ok(())
    );
    assert_eq!(pallet.get_balance(&"Alice".to_string()), 7);
    assert_eq!(pallet.get_balance(&"Bob".to_string()), u128::MAX);
}

#[test]
fn insufficient_funds_is_reported_before_overflow() {
    let mut pallet = Pallet::new();
    pallet.set_balance(&"Alice".to_string(), 1);
    pallet.set_balance(&"Bob".to_string(), u128::MAX);
    assert_eq!(
        pallet.transfer("Alice".to_string(), "Bob".to_string(), 2),
        Err(DispatchError::InsufficientFunds)
    );
    assert_eq!(
        pallet.transfer("Alice".to_string(), "Bob".to_string(), 1),
        Err(DispatchError::Overflow)
    );
}

#[test]
fn transfer_of_the_whole_balance() {
    let mut pallet = Pallet::new();
    pallet.set_balance(&"Alice".to_string(), 100);
    assert_eq!(
        pallet.transfer("Alice".to_string(), "Bob".to_string(), 100),
        Ok(())
    );
    assert_eq!(pallet.get_balance(&"Alice".to_string()), 0);
    assert_eq!(pallet.get_balance(&"Bob".to_string()), 100);
}

#[test]
fn transfer_of_nothing_from_an_unknown_account() {
    let mut pallet = Pallet::new();
    assert_eq!(
        pallet.transfer("Alice".to_string(), "Bob".to_string(), 0),
        Ok(())
    );
    assert_eq!(pallet.get_balance(&"Alice".to_string()), 0);
    assert_eq!(pallet.get_balance(&"Bob".to_string()), 0);
}

#[test]
fn transfer_to_oneself_changes_nothing() {
    let mut pallet = Pallet::new();
    pallet.set_balance(&"Alice".to_string(), 10);
    pallet.set_balance(&"Bob".to_string(), 3);
    assert_eq!(
        pallet.transfer("Alice".to_string(), "Alice".to_string(), 4),
        Ok(())
    );
    assert_eq!(pallet.get_balance(&"Alice".to_string()), 10);
    assert_eq!(
        pallet.transfer("Alice".to_string(), "Alice".to_string(), 10),
        Ok(())
    );
    assert_eq!(pallet.get_balance(&"Alice".to_string()), 10);
    assert_eq!(
        pallet.transfer("Alice".to_string(), "Alice".to_string(), 0),
        Ok(())
    );
    assert_eq!(pallet.get_balance(&"Alice".to_string()), 10);
    assert_eq!(pallet.get_balance(&"Bob".to_string()), 3);
}

#[test]
fn transfer_to_oneself_of_one_hundred() {
    let mut pallet = Pallet::new();
    pallet.set_balance(&"Alice".to_string(), 100);
    assert_eq!(
        pallet.transfer("Alice".to_string(), "Alice".to_string(), 22),
        Ok(())
    );
    assert_eq!(pallet.get_balance(&"Alice".to_string()), 100);
}

#[test]
fn transfer_to_oneself_is_examined_like_any_other() {
    let mut pallet = Pallet::new();
    pallet.set_balance(&"Alice".to_string(), 10);
    assert_eq!(
        pallet.transfer("Alice".to_string(), "Alice".to_string(), 11),
        Err(DispatchError::InsufficientFunds)
    );
    assert_eq!(pallet.get_balance(&"Alice".to_string()), 10);

    pallet.set_balance(&"Alice".to_string(), u128::MAX - 1);
    assert_eq!(
        pallet.transfer("Alice".to_string(), "Alice".to_string(), 2),
        Err(DispatchError::Overflow)
    );
    assert_eq!(pallet.get_balance(&"Alice".to_string()), u128::MAX - 1);
    assert_eq!(
        pallet.transfer("Alice".to_string(), "Alice".to_string(), 1),
        Ok(())
    );
    assert_eq!(pallet.get_balance(&"Alice".to_string()), u128::MAX - 1);

    // an account that was never credited may send itself nothing
    assert_eq!(
        pallet.transfer("Bob".to_string(), "Bob".to_string(), 0),
        Ok(())
    );
    assert_eq!(pallet.get_balance(&"Bob".to_string()), 0);
    assert_eq!(
        pallet.transfer("Bob".to_string(), "Bob".to_string(), 1),
        Err(DispatchError::InsufficientFunds)
    );
}

#[test]
fn balances_dispatch_forwards_to_transfer() {
    let mut pallet = Pallet::new();
    pallet.set_balance(&"Alice".to_string(), 30);
    assert_eq!(
        pallet.dispatch(
            "Alice".to_string(),
            Call::Transfer {
                to: "Bob".to_string(),
                amount: 20,
            },
        ),
        Ok(())
    );
    assert_eq!(pallet.get_balance(&"Alice".to_string()), 10);
    assert_eq!(pallet.get_balance(&"Bob".to_string()), 20);
    assert_eq!(
        pallet.dispatch(
            "Alice".to_string(),
            Call::Transfer {
                to: "Bob".to_string(),
                amount: 20,
            },
        ),
        Err(DispatchError::InsufficientFunds)
    );
    assert_eq!(pallet.get_balance(&"Alice".to_string()), 10);
    assert_eq!(pallet.get_balance(&"Bob".to_string()), 20);
    // a dispatched transfer to oneself changes nothing either
    assert_eq!(
        pallet.dispatch(
            "Alice".to_string(),
            Call::Transfer {
                to: "Alice".to_string(),
                amount: 10,
            },
        ),
        Ok(())
    );
    assert_eq!(pallet.get_balance(&"Alice".to_string()), 10);
}
