use custody_escrow::address::Address;
use custody_escrow::errors::CustomError;
use custody_escrow::escrow::Escrow;
use custody_escrow::escrow::InitTokenParams;
use custody_escrow::record::EscrowKind;

fn addr(fill: u8) -> Address {
    Address::new([fill; 32])
}

fn program() -> Address {
    let mut bytes = [7u8; 32];
    bytes[0] = 3;
    bytes[31] = 9;
    Address::new(bytes)
}

fn params() -> InitTokenParams {
    InitTokenParams {
        name: String::from("Escrow Token"),
        symbol: String::from("ESC"),
        uri: String::from("https://example.invalid/token.json"),
        decimals: 9,
    }
}

#[test]
fn token_deposit_and_withdraw_roundtrip() {
    let mut escrow = Escrow::new(program());
    let user = addr(1);
    let class = escrow.create_token(params()).unwrap();
    assert_eq!(escrow.mint_spl(&class.mint, &user, 100), Ok(()));
    assert_eq!(escrow.user_token_balance_of(&user), 100);
    assert_eq!(escrow.deposit_spl(&user, 100), Ok(()));
    assert_eq!(escrow.token_balance_of(&user), 100);
    assert_eq!(escrow.user_token_balance_of(&user), 0);
    assert_eq!(escrow.token_custody_holdings(&user), 100);
    assert_eq!(escrow.withdraw_spl(&user), Ok(100));
    assert_eq!(escrow.token_balance_of(&user), 0);
    assert_eq!(escrow.user_token_balance_of(&user), 100);
    assert_eq!(escrow.token_custody_holdings(&user), 0);
}

#[test]
fn create_token_sets_up_the_class() {
    let mut escrow = Escrow::new(program());
    let class = escrow.create_token(params()).unwrap();
    assert_eq!(class.decimals, 9);
    assert_eq!(escrow.supply_of(), 0);
    let stored = escrow.token_class_of().unwrap();
    assert_eq!(stored.mint.bytes, class.mint.bytes);
    assert_eq!(stored.proof_index, class.proof_index);
}

#[test]
fn create_token_twice_fails() {
    let mut escrow = Escrow::new(program());
    let first = escrow.create_token(params());
    assert!(first.is_ok());
    match escrow.create_token(params()) {
        Err(CustomError::AlreadyExists) => {},
        _ => panic!("creating the token class twice must fail"),
    }
}

#[test]
fn mint_raises_supply_and_holdings() {
    let mut escrow = Escrow::new(program());
    let user = addr(1);
    let class = escrow.create_token(params()).unwrap();
    assert_eq!(escrow.mint_spl(&class.mint, &user, 70), Ok(()));
    assert_eq!(escrow.mint_spl(&class.mint, &user, 30), Ok(()));
    assert_eq!(escrow.supply_of(), 100);
    assert_eq!(escrow.user_token_balance_of(&user), 100);
    assert_eq!(escrow.token_balance_of(&user), 0);
}

#[test]
fn mint_with_wrong_mint_address_fails() {
    let mut escrow = Escrow::new(program());
    let user = addr(1);
    let _class = escrow.create_token(params()).unwrap();
    assert_eq!(
        escrow.mint_spl(&addr(9), &user, 100),
        Err(CustomError::AuthorityMismatch)
    );
    assert_eq!(escrow.supply_of(), 0);
    assert_eq!(escrow.user_token_balance_of(&user), 0);
}

#[test]
fn mint_overflow_is_rejected() {
    let mut escrow = Escrow::new(program());
    let user = addr(1);
    let class = escrow.create_token(params()).unwrap();
    assert_eq!(escrow.mint_spl(&class.mint, &user, u64::MAX), Ok(()));
    assert_eq!(
        escrow.mint_spl(&class.mint, &user, 1),
        Err(CustomError::ArithmeticOverflow)
    );
    assert_eq!(escrow.supply_of(), u64::MAX);
    assert_eq!(escrow.user_token_balance_of(&user), u64::MAX);
}

#[test]
fn token_deposit_with_insufficient_holdings_fails() {
    let mut escrow = Escrow::new(program());
    let user = addr(1);
    let class = escrow.create_token(params()).unwrap();
    assert_eq!(escrow.mint_spl(&class.mint, &user, 20), Ok(()));
    assert_eq!(
        escrow.deposit_spl(&user, 50),
        Err(CustomError::InsufficientFunds)
    );
    assert_eq!(escrow.user_token_balance_of(&user), 20);
    assert_eq!(escrow.token_balance_of(&user), 0);
}

#[test]
fn token_withdraw_with_zero_balance_fails() {
    let mut escrow = Escrow::new(program());
    let user = addr(1);
    let class = escrow.create_token(params()).unwrap();
    assert_eq!(escrow.mint_spl(&class.mint, &user, 20), Ok(()));
    assert_eq!(
        escrow.withdraw_spl(&user),
        Err(CustomError::InsufficientBalance)
    );
    assert_eq!(escrow.user_token_balance_of(&user), 20);
}

#[test]
fn token_record_creation_is_idempotent() {
    let mut escrow = Escrow::new(program());
    let user = addr(1);
    let _class = escrow.create_token(params()).unwrap();
    assert_eq!(escrow.ensure_record(&user, EscrowKind::Token), Ok(()));
    let custody_1 = escrow.token_custody_of(&user).unwrap();
    assert_eq!(escrow.ensure_record(&user, EscrowKind::Token), Ok(()));
    let custody_2 = escrow.token_custody_of(&user).unwrap();
    assert_eq!(custody_1.bytes, custody_2.bytes);
    assert_eq!(escrow.token_balance_of(&user), 0);
}

#[test]
fn native_and_token_escrows_are_separate() {
    let mut escrow = Escrow::new(program());
    let user = addr(1);
    let class = escrow.create_token(params()).unwrap();
    let mut wallet: u64 = 1_000;
    assert_eq!(escrow.deposit(&user, &mut wallet, 600), Ok(()));
    assert_eq!(escrow.mint_spl(&class.mint, &user, 100), Ok(()));
    assert_eq!(escrow.deposit_spl(&user, 40), Ok(()));
    assert_eq!(escrow.native_balance_of(&user), 600);
    assert_eq!(escrow.token_balance_of(&user), 40);
    assert_eq!(escrow.withdraw_spl(&user), Ok(40));
    assert_eq!(escrow.native_balance_of(&user), 600);
}
