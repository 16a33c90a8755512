//! Deterministic derivation of custody addresses.
//!
//! A custody address is derived from the program identity, a purpose tag and
//! the user's identity by searching for the largest bump seed whose
//! derivation falls outside the space of real key pairs. The bump is the
//! proof index: cached once, it later reconstructs authority over the
//! address without a private key.

use vstd::prelude::*;

use crate::address::Address;

verus! {

/// What `Pubkey::try_find_program_address` returns for the given seeds and
/// program id: the derived address and its bump seed, or nothing when no
/// bump yields a valid derivation.
pub uninterp spec fn find_pda_of(seeds: Seq<Seq<u8>>, program: Seq<u8>) -> Option<(Seq<u8>, u8)>;

/// What `Pubkey::create_program_address` returns for the given seeds and
/// program id: the derived address, or nothing when the seeds are rejected
/// or the derivation lands on the curve of real key pairs.
pub uninterp spec fn pda_of(seeds: Seq<Seq<u8>>, program: Seq<u8>) -> Option<Seq<u8>>;

/// The purpose tag of the native-value escrow: the bytes of
/// `"native-escrow"`.
pub open spec fn native_escrow_tag() -> Seq<u8> {
    seq![110u8, 97u8, 116u8, 105u8, 118u8, 101u8, 45u8, 101u8, 115u8, 99u8, 114u8, 111u8, 119u8]
}

/// The purpose tag of the fungible-token escrow: the bytes of
/// `"token-escrow"`.
pub open spec fn token_escrow_tag() -> Seq<u8> {
    seq![116u8, 111u8, 107u8, 101u8, 110u8, 45u8, 101u8, 115u8, 99u8, 114u8, 111u8, 119u8]
}

/// The fixed purpose tag under which the token class and its authority are
/// derived: the bytes of `"issuance"`.
pub open spec fn issuance_tag() -> Seq<u8> {
    seq![105u8, 115u8, 115u8, 117u8, 97u8, 110u8, 99u8, 101u8]
}

/// The native-escrow purpose tag as seed bytes.
pub fn native_escrow_seed() -> (r: Vec<u8>)
    ensures
        r@ == native_escrow_tag(),
{
    let mut v: Vec<u8> = Vec::new();
    v.push(110);
    v.push(97);
    v.push(116);
    v.push(105);
    v.push(118);
    v.push(101);
    v.push(45);
    v.push(101);
    v.push(115);
    v.push(99);
    v.push(114);
    v.push(111);
    v.push(119);
    proof {
        assert(v@ =~= native_escrow_tag());
    }
    v
}

/// The token-escrow purpose tag as seed bytes.
pub fn token_escrow_seed() -> (r: Vec<u8>)
    ensures
        r@ == token_escrow_tag(),
{
    let mut v: Vec<u8> = Vec::new();
    v.push(116);
    v.push(111);
    v.push(107);
    v.push(101);
    v.push(110);
    v.push(45);
    v.push(101);
    v.push(115);
    v.push(99);
    v.push(114);
    v.push(111);
    v.push(119);
    proof {
        assert(v@ =~= token_escrow_tag());
    }
    v
}

/// The issuance purpose tag as seed bytes.
pub fn issuance_seed() -> (r: Vec<u8>)
    ensures
        r@ == issuance_tag(),
{
    let mut v: Vec<u8> = Vec::new();
    v.push(105);
    v.push(115);
    v.push(115);
    v.push(117);
    v.push(97);
    v.push(110);
    v.push(99);
    v.push(101);
    proof {
        assert(v@ =~= issuance_tag());
    }
    v
}

/// Relies on `Pubkey::try_find_program_address`: its result is a function of
/// the seed bytes and the program id alone, and a returned pair is exactly
/// what `Pubkey::create_program_address` yields for the same seeds once the
/// bump seed is appended (it returns the first bump, searched downward from
/// 255, for which that derivation succeeds).
#[verifier::external_body]
pub(crate) fn try_find_pda(seeds: &Vec<Vec<u8>>, program: &Address) -> (r: Option<(Address, u8)>)
    ensures
        r matches Some(p) ==> find_pda_of(seeds.deep_view(), program@) == Some((p.0@, p.1)),
        r is None ==> find_pda_of(seeds.deep_view(), program@) is None,
        r matches Some(p) ==> pda_of(seeds.deep_view().push(seq![p.1]), program@) == Some(p.0@),
{
    let pid = anchor_lang::prelude::Pubkey::new_from_array(program.bytes);
    let refs: Vec<&[u8]> = seeds.iter().map(|s| s.as_slice()).collect();
    match anchor_lang::prelude::Pubkey::try_find_program_address(&refs, &pid) {
        Some((pk, bump)) => Some((Address { bytes: pk.to_bytes() }, bump)),
        None => None,
    }
}

/// Relies on `Pubkey::create_program_address`: its result is a function of
/// the seed bytes and the program id alone.
#[verifier::external_body]
pub(crate) fn compute_pda(seeds: &Vec<Vec<u8>>, program: &Address) -> (r: Option<Address>)
    ensures
        r matches Some(a) ==> pda_of(seeds.deep_view(), program@) == Some(a@),
        r is None ==> pda_of(seeds.deep_view(), program@) is None,
{
    let pid = anchor_lang::prelude::Pubkey::new_from_array(program.bytes);
    let refs: Vec<&[u8]> = seeds.iter().map(|s| s.as_slice()).collect();
    match anchor_lang::prelude::Pubkey::create_program_address(&refs, &pid) {
        Ok(pk) => Some(Address { bytes: pk.to_bytes() }),
        Err(_) => None,
    }
}

/// Derive the custody address and proof index for one purpose tag and one
/// user. Deterministic: the result is a function of the three inputs alone.
/// The returned address is reproducible from the same seeds plus the
/// returned proof index.
pub fn derive_custody(program: &Address, tag: &Vec<u8>, user: &Address) -> (r: Option<(Address, u8)>)
    ensures
        r matches Some(p) ==> find_pda_of(seq![tag@, user@], program@) == Some((p.0@, p.1)),
        r matches Some(p) ==> pda_of(seq![tag@, user@, seq![p.1]], program@) == Some(p.0@),
        r is None ==> find_pda_of(seq![tag@, user@], program@) is None,
{
    let mut seeds: Vec<Vec<u8>> = Vec::new();
    seeds.push(vstd::slice::slice_to_vec(tag.as_slice()));
    seeds.push(user.to_seed());
    proof {
        assert(seeds.deep_view() =~~= seq![tag@, user@]);
    }
    let r = try_find_pda(&seeds, program);
    proof {
        if let Some(p) = r {
            assert(seeds.deep_view().push(seq![p.1]) =~~= seq![tag@, user@, seq![p.1]]);
        }
    }
    r
}

/// Derive the program-wide address and proof index for one purpose tag with
/// no user component, as used for the token class of the issuance path.
pub fn derive_program_wide(program: &Address, tag: &Vec<u8>) -> (r: Option<(Address, u8)>)
    ensures
        r matches Some(p) ==> find_pda_of(seq![tag@], program@) == Some((p.0@, p.1)),
        r matches Some(p) ==> pda_of(seq![tag@, seq![p.1]], program@) == Some(p.0@),
        r is None ==> find_pda_of(seq![tag@], program@) is None,
{
    let mut seeds: Vec<Vec<u8>> = Vec::new();
    seeds.push(vstd::slice::slice_to_vec(tag.as_slice()));
    proof {
        assert(seeds.deep_view() =~~= seq![tag@]);
    }
    let r = try_find_pda(&seeds, program);
    proof {
        if let Some(p) = r {
            assert(seeds.deep_view().push(seq![p.1]) =~~= seq![tag@, seq![p.1]]);
        }
    }
    r
}

/// Derivation is deterministic: two derivations from the same program, tag
/// and user agree on the custody address and on the proof index.
pub proof fn lemma_derivation_deterministic(
    r1: Option<(Seq<u8>, u8)>,
    r2: Option<(Seq<u8>, u8)>,
    seeds: Seq<Seq<u8>>,
    program: Seq<u8>,
)
    requires
        r1 == find_pda_of(seeds, program),
        r2 == find_pda_of(seeds, program),
    ensures
        r1 == r2,
{
}

} // verus!
