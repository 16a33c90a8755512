use custody_escrow::address::Address;
use custody_escrow::authority::Capability;
use custody_escrow::derivation::derive_custody;
use custody_escrow::derivation::native_escrow_seed;
use custody_escrow::errors::CustomError;
use custody_escrow::record::EscrowKind;
use custody_escrow::record::StackAccount;
use custody_escrow::transfer::transfer_in;
use custody_escrow::transfer::transfer_out;

fn addr(fill: u8) -> Address {
    Address::new([fill; 32])
}

#[test]
fn credit_and_debit_all() {
    let mut record = StackAccount::new();
    assert_eq!(record.balance, 0);
    assert_eq!(record.credit(300), Ok(()));
    assert_eq!(record.credit(200), Ok(()));
    assert_eq!(record.balance, 500);
    assert_eq!(record.debit_all(), Ok(500));
    assert_eq!(record.balance, 0);
}

#[test]
fn credit_overflow_is_rejected() {
    let mut record = StackAccount::new();
    assert_eq!(record.credit(u64::MAX), Ok(()));
    assert_eq!(record.credit(1), Err(CustomError::ArithmeticOverflow));
    assert_eq!(record.balance, u64::MAX);
}

#[test]
fn debit_all_on_empty_record_fails() {
    let mut record = StackAccount::new();
    assert_eq!(record.debit_all(), Err(CustomError::InsufficientBalance));
    assert_eq!(record.balance, 0);
}

#[test]
fn caching_a_different_proof_index_is_drift() {
    let mut record = StackAccount::new();
    assert_eq!(record.cache_proof_index(EscrowKind::Native, 5), Ok(()));
    // re-caching the same index is a no-op
    assert_eq!(record.cache_proof_index(EscrowKind::Native, 5), Ok(()));
    assert_eq!(record.native_proof_index, Some(5));
    // a different index signals derivation drift and changes nothing
    assert_eq!(
        record.cache_proof_index(EscrowKind::Native, 6),
        Err(CustomError::DerivationDrift)
    );
    assert_eq!(record.native_proof_index, Some(5));
}

#[test]
fn proof_index_slots_are_independent() {
    let mut record = StackAccount::new();
    assert_eq!(record.cache_proof_index(EscrowKind::Native, 5), Ok(()));
    assert_eq!(record.cache_proof_index(EscrowKind::Token, 9), Ok(()));
    assert_eq!(record.native_proof_index, Some(5));
    assert_eq!(record.token_proof_index, Some(9));
}

#[test]
fn transfer_in_moves_value_or_nothing() {
    let mut from: u64 = 100;
    let mut to: u64 = 7;
    assert_eq!(transfer_in(&mut from, &mut to, 40), Ok(()));
    assert_eq!((from, to), (60, 47));
    assert_eq!(
        transfer_in(&mut from, &mut to, 61),
        Err(CustomError::InsufficientFunds)
    );
    assert_eq!((from, to), (60, 47));
    let mut full: u64 = u64::MAX;
    assert_eq!(
        transfer_in(&mut from, &mut full, 1),
        Err(CustomError::ArithmeticOverflow)
    );
    assert_eq!((from, full), (60, u64::MAX));
}

#[test]
fn transfer_out_requires_a_matching_capability() {
    let program = addr(3);
    let user = addr(42);
    let tag = native_escrow_seed();
    let (custody, bump) = derive_custody(&program, &tag, &user).unwrap();
    let mut held: u64 = 500;
    let mut wallet: u64 = 0;
    // a capability over someone else's seed material moves nothing
    let wrong = Capability::authorize(&tag, &addr(43), bump);
    assert_eq!(
        transfer_out(&program, &custody, &wrong, &mut held, &mut wallet, 500),
        Err(CustomError::AuthorityMismatch)
    );
    assert_eq!((held, wallet), (500, 0));
    // the rightful capability does
    let right = Capability::authorize(&tag, &user, bump);
    assert_eq!(
        transfer_out(&program, &custody, &right, &mut held, &mut wallet, 500),
        Ok(())
    );
    assert_eq!((held, wallet), (0, 500));
}
