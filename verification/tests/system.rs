use mine::system::Pallet;

#[test]
fn init_system() {
    let mut pallet = Pallet::new();

    assert_eq!(pallet.block_number(), 0);
    pallet.inc_block_number();
    assert_eq!(pallet.block_number(), 1);
}

#[test]
fn init_nonce() {
    let mut pallet = Pallet::new();

    assert_eq!(pallet.nonce(&"Alice".to_string()), None);
    pallet.inc_nonce(&"Alice".to_string());
    assert_eq!(pallet.nonce(&"Alice".to_string()), Some(&1));
    pallet.inc_nonce(&"Alice".to_string());
    assert_eq!(pallet.nonce(&"Alice".to_string()), Some(&2));
}

#[test]
fn block_number_counts_every_increment() {
    let mut pallet = Pallet::new();
    for expected in 1..=1000u32 {
        pallet.inc_block_number();
        assert_eq!(pallet.block_number(), expected);
    }
}

#[test]
fn nonces_are_kept_per_account() {
    let mut pallet = Pallet::new();
    pallet.inc_nonce(&"Alice".to_string());
    pallet.inc_nonce(&"Bob".to_string());
    pallet.inc_nonce(&"Alice".to_string());
    pallet.inc_nonce(&"Alice".to_string());
    assert_eq!(pallet.nonce(&"Alice".to_string()), Some(&3));
    assert_eq!(pallet.nonce(&"Bob".to_string()), Some(&1));
    assert_eq!(pallet.nonce(&"Charlie".to_string()), None);
    assert_eq!(pallet.block_number(), 0);
}

#[test]
fn increments_of_the_block_number_leave_nonces_alone() {
    let mut pallet = Pallet::new();
    pallet.inc_nonce(&"Alice".to_string());
    pallet.inc_block_number();
    pallet.inc_block_number();
    assert_eq!(pallet.nonce(&"Alice".to_string()), Some(&1));
    assert_eq!(pallet.block_number(), 2);
}
