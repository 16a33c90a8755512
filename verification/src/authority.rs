//! Custody authority: capabilities that prove, without a private key, the
//! right to move value out of a derived custody address.

use vstd::prelude::*;

use crate::address::Address;
use crate::derivation::compute_pda;
use crate::derivation::pda_of;

verus! {

/// A capability over a custody address: the seed material of its derivation
/// together with the cached proof index. Presenting it to the transfer
/// adapter proves control of the address, functionally like a signature but
/// reconstructed instead of held.
pub struct Capability {
    pub seeds: Vec<Vec<u8>>,
    pub proof_index: u8,
}

impl Capability {
    /// The full seed material the capability presents: the derivation seeds
    /// followed by the proof index as a one-byte seed.
    pub open spec fn seed_material(self) -> Seq<Seq<u8>> {
        self.seeds.deep_view().push(seq![self.proof_index])
    }

    /// Rebuild the capability for a per-user custody address from its
    /// purpose tag, the user's identity and the cached proof index.
    pub fn authorize(tag: &Vec<u8>, user: &Address, proof_index: u8) -> (c: Capability)
        ensures
            c.seed_material() == seq![tag@, user@, seq![proof_index]],
    {
        let mut seeds: Vec<Vec<u8>> = Vec::new();
        seeds.push(vstd::slice::slice_to_vec(tag.as_slice()));
        seeds.push(user.to_seed());
        let c = Capability { seeds, proof_index };
        proof {
            assert(c.seed_material() =~~= seq![tag@, user@, seq![proof_index]]);
        }
        c
    }

    /// Rebuild the program-wide capability of the issuance path from its
    /// fixed purpose tag and the cached proof index.
    pub fn authorize_program_wide(tag: &Vec<u8>, proof_index: u8) -> (c: Capability)
        ensures
            c.seed_material() == seq![tag@, seq![proof_index]],
    {
        let mut seeds: Vec<Vec<u8>> = Vec::new();
        seeds.push(vstd::slice::slice_to_vec(tag.as_slice()));
        let c = Capability { seeds, proof_index };
        proof {
            assert(c.seed_material() =~~= seq![tag@, seq![proof_index]]);
        }
        c
    }

    /// The explicit verification step of every outgoing transfer: a
    /// capability certifies an address exactly when its seed material
    /// re-derives that address.
    pub fn certifies(&self, program: &Address, custody: &Address) -> (r: bool)
        ensures
            r <==> pda_of(self.seed_material(), program@) == Some(custody@),
    {
        let mut seeds: Vec<Vec<u8>> = Vec::new();
        let mut i: usize = 0;
        while i < self.seeds.len()
            invariant
                i <= self.seeds@.len(),
                seeds@.len() == i,
                forall|j: int| 0 <= j < i ==> seeds@[j]@ == self.seeds@[j]@,
            decreases self.seeds@.len() - i,
        {
            seeds.push(vstd::slice::slice_to_vec(self.seeds[i].as_slice()));
            i = i + 1;
        }
        let mut bump: Vec<u8> = Vec::new();
        bump.push(self.proof_index);
        seeds.push(bump);
        proof {
            assert(seeds.deep_view() =~~= self.seed_material());
        }
        match compute_pda(&seeds, program) {
            Some(a) => a.same_as(custody),
            None => false,
        }
    }
}

} // verus!
