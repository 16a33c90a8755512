use custody_escrow::address::Address;
use custody_escrow::errors::CustomError;
use custody_escrow::escrow::Escrow;
use custody_escrow::record::EscrowKind;

fn addr(fill: u8) -> Address {
    Address::new([fill; 32])
}

fn program() -> Address {
    let mut bytes = [7u8; 32];
    bytes[0] = 3;
    bytes[31] = 9;
    Address::new(bytes)
}

#[test]
fn deposit_credits_balance() {
    let mut escrow = Escrow::new(program());
    let user = addr(1);
    let mut wallet: u64 = 5_000;
    assert_eq!(escrow.deposit(&user, &mut wallet, 1_000), Ok(()));
    assert_eq!(escrow.native_balance_of(&user), 1_000);
    assert_eq!(wallet, 4_000);
    // the custody account holds exactly what is owed
    assert_eq!(escrow.native_custody_holdings(&user), 1_000);
}

#[test]
fn deposit_accumulates() {
    let mut escrow = Escrow::new(program());
    let user = addr(1);
    let mut wallet: u64 = 5_000;
    assert_eq!(escrow.deposit(&user, &mut wallet, 1_000), Ok(()));
    assert_eq!(escrow.deposit(&user, &mut wallet, 500), Ok(()));
    assert_eq!(escrow.native_balance_of(&user), 1_500);
    assert_eq!(wallet, 3_500);
}

#[test]
fn withdraw_returns_full_balance() {
    let mut escrow = Escrow::new(program());
    let user = addr(1);
    let mut wallet: u64 = 5_000;
    assert_eq!(escrow.deposit(&user, &mut wallet, 1_000), Ok(()));
    assert_eq!(escrow.deposit(&user, &mut wallet, 500), Ok(()));
    assert_eq!(escrow.withdraw(&user, &mut wallet), Ok(1_500));
    assert_eq!(escrow.native_balance_of(&user), 0);
    assert_eq!(escrow.native_custody_holdings(&user), 0);
    assert_eq!(wallet, 5_000);
}

#[test]
fn withdraw_with_zero_balance_fails() {
    let mut escrow = Escrow::new(program());
    let user = addr(1);
    let mut wallet: u64 = 5_000;
    assert_eq!(escrow.deposit(&user, &mut wallet, 1_500), Ok(()));
    assert_eq!(escrow.withdraw(&user, &mut wallet), Ok(1_500));
    assert_eq!(
        escrow.withdraw(&user, &mut wallet),
        Err(CustomError::InsufficientBalance)
    );
    assert_eq!(escrow.native_balance_of(&user), 0);
    assert_eq!(wallet, 5_000);
}

#[test]
fn withdraw_without_record_fails() {
    let mut escrow = Escrow::new(program());
    let user = addr(1);
    let mut wallet: u64 = 0;
    assert_eq!(
        escrow.withdraw(&user, &mut wallet),
        Err(CustomError::InsufficientBalance)
    );
    assert_eq!(wallet, 0);
}

#[test]
fn deposit_overflow_is_rejected() {
    let mut escrow = Escrow::new(program());
    let user = addr(1);
    let mut wallet: u64 = u64::MAX;
    assert_eq!(escrow.deposit(&user, &mut wallet, u64::MAX), Ok(()));
    assert_eq!(escrow.native_balance_of(&user), u64::MAX);
    let mut more: u64 = 10;
    assert_eq!(
        escrow.deposit(&user, &mut more, 1),
        Err(CustomError::ArithmeticOverflow)
    );
    assert_eq!(escrow.native_balance_of(&user), u64::MAX);
    assert_eq!(more, 10);
}

#[test]
fn deposit_with_insufficient_wallet_fails() {
    let mut escrow = Escrow::new(program());
    let user = addr(1);
    let mut wallet: u64 = 10;
    assert_eq!(
        escrow.deposit(&user, &mut wallet, 100),
        Err(CustomError::InsufficientFunds)
    );
    assert_eq!(wallet, 10);
    assert_eq!(escrow.native_balance_of(&user), 0);
}

#[test]
fn users_are_independent() {
    let mut escrow = Escrow::new(program());
    let alice = addr(1);
    let bob = addr(2);
    let mut wallet_a: u64 = 1_000;
    let mut wallet_b: u64 = 1_000;
    assert_eq!(escrow.deposit(&alice, &mut wallet_a, 700), Ok(()));
    assert_eq!(escrow.deposit(&bob, &mut wallet_b, 300), Ok(()));
    assert_eq!(escrow.native_balance_of(&alice), 700);
    assert_eq!(escrow.native_balance_of(&bob), 300);
    let mut wallet_a2: u64 = 0;
    assert_eq!(escrow.withdraw(&alice, &mut wallet_a2), Ok(700));
    assert_eq!(escrow.native_balance_of(&alice), 0);
    assert_eq!(escrow.native_balance_of(&bob), 300);
    let custody_a = escrow.native_custody_of(&alice).unwrap();
    let custody_b = escrow.native_custody_of(&bob).unwrap();
    assert_ne!(custody_a.bytes, custody_b.bytes);
}

#[test]
fn ensure_record_is_idempotent() {
    let mut escrow = Escrow::new(program());
    let user = addr(1);
    assert_eq!(escrow.ensure_record(&user, EscrowKind::Native), Ok(()));
    let custody_1 = escrow.native_custody_of(&user).unwrap();
    let index_1 = escrow.native_proof_index_of(&user).unwrap();
    assert_eq!(escrow.native_balance_of(&user), 0);
    assert_eq!(escrow.ensure_record(&user, EscrowKind::Native), Ok(()));
    let custody_2 = escrow.native_custody_of(&user).unwrap();
    let index_2 = escrow.native_proof_index_of(&user).unwrap();
    assert_eq!(custody_1.bytes, custody_2.bytes);
    assert_eq!(index_1, index_2);
    assert_eq!(escrow.native_balance_of(&user), 0);
}

#[test]
fn proof_index_is_stable_across_operations() {
    let mut escrow = Escrow::new(program());
    let user = addr(1);
    let mut wallet: u64 = 1_000;
    assert_eq!(escrow.ensure_record(&user, EscrowKind::Native), Ok(()));
    let index_0 = escrow.native_proof_index_of(&user).unwrap();
    assert_eq!(escrow.deposit(&user, &mut wallet, 400), Ok(()));
    assert_eq!(escrow.native_proof_index_of(&user), Some(index_0));
    assert_eq!(escrow.withdraw(&user, &mut wallet), Ok(400));
    assert_eq!(escrow.native_proof_index_of(&user), Some(index_0));
    assert_eq!(escrow.deposit(&user, &mut wallet, 1), Ok(()));
    assert_eq!(escrow.native_proof_index_of(&user), Some(index_0));
}

#[test]
fn record_is_reusable_after_withdrawal() {
    let mut escrow = Escrow::new(program());
    let user = addr(1);
    let mut wallet: u64 = 1_000;
    assert_eq!(escrow.deposit(&user, &mut wallet, 600), Ok(()));
    assert_eq!(escrow.withdraw(&user, &mut wallet), Ok(600));
    assert_eq!(escrow.deposit(&user, &mut wallet, 250), Ok(()));
    assert_eq!(escrow.native_balance_of(&user), 250);
}
