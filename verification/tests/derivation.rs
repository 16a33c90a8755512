use custody_escrow::address::Address;
use custody_escrow::authority::Capability;
use custody_escrow::derivation::derive_custody;
use custody_escrow::derivation::derive_program_wide;
use custody_escrow::derivation::issuance_seed;
use custody_escrow::derivation::native_escrow_seed;
use custody_escrow::derivation::token_escrow_seed;

fn addr(fill: u8) -> Address {
    Address::new([fill; 32])
}

fn program() -> Address {
    let mut bytes = [7u8; 32];
    bytes[0] = 3;
    bytes[31] = 9;
    Address::new(bytes)
}

#[test]
fn derivation_is_deterministic() {
    let program = program();
    let user = addr(42);
    let tag = native_escrow_seed();
    let (a1, b1) = derive_custody(&program, &tag, &user).unwrap();
    let (a2, b2) = derive_custody(&program, &tag, &user).unwrap();
    assert_eq!(a1.bytes, a2.bytes);
    assert_eq!(b1, b2);
}

#[test]
fn distinct_users_get_distinct_custody() {
    let program = program();
    let tag = native_escrow_seed();
    let users = [addr(0), addr(1), addr(2), addr(77), addr(200), addr(255)];
    let mut derived: Vec<[u8; 32]> = Vec::new();
    for user in users.iter() {
        let (custody, _) = derive_custody(&program, &tag, user).unwrap();
        derived.push(custody.bytes);
    }
    for i in 0..derived.len() {
        for j in 0..derived.len() {
            if i != j {
                assert_ne!(derived[i], derived[j]);
            }
        }
    }
}

#[test]
fn distinct_purpose_tags_get_distinct_custody() {
    let program = program();
    let user = addr(42);
    let native_tag = native_escrow_seed();
    let token_tag = token_escrow_seed();
    let (native_custody, _) = derive_custody(&program, &native_tag, &user).unwrap();
    let (token_custody, _) = derive_custody(&program, &token_tag, &user).unwrap();
    assert_ne!(native_custody.bytes, token_custody.bytes);
    // a custody address is a fresh derived account: neither the user's own
    // address nor the program's
    assert_ne!(native_custody.bytes, user.bytes);
    assert_ne!(native_custody.bytes, program.bytes);
}

#[test]
fn program_wide_derivation_is_deterministic() {
    let program = program();
    let tag = issuance_seed();
    let (m1, b1) = derive_program_wide(&program, &tag).unwrap();
    let (m2, b2) = derive_program_wide(&program, &tag).unwrap();
    assert_eq!(m1.bytes, m2.bytes);
    assert_eq!(b1, b2);
}

#[test]
fn capability_certifies_derived_address() {
    let program = program();
    let user = addr(42);
    let tag = native_escrow_seed();
    let (custody, bump) = derive_custody(&program, &tag, &user).unwrap();
    let cap = Capability::authorize(&tag, &user, bump);
    assert!(cap.certifies(&program, &custody));
}

#[test]
fn capability_with_wrong_seed_material_does_not_certify() {
    let program = program();
    let user = addr(42);
    let other = addr(43);
    let tag = native_escrow_seed();
    let (custody, bump) = derive_custody(&program, &tag, &user).unwrap();
    // wrong user in the seed material
    let cap_other = Capability::authorize(&tag, &other, bump);
    assert!(!cap_other.certifies(&program, &custody));
    // wrong proof index
    let cap_bad_bump = Capability::authorize(&tag, &user, bump.wrapping_add(1));
    assert!(!cap_bad_bump.certifies(&program, &custody));
}

#[test]
fn program_wide_capability_certifies_mint() {
    let program = program();
    let tag = issuance_seed();
    let (mint, bump) = derive_program_wide(&program, &tag).unwrap();
    let cap = Capability::authorize_program_wide(&tag, bump);
    assert!(cap.certifies(&program, &mint));
    assert!(!cap.certifies(&program, &addr(1)));
}
