//! Account addresses: 32-byte identifiers for users, custody accounts and
//! token classes.

use vstd::prelude::*;

verus! {

/// A 32-byte account address. A user's identity is their address; a custody
/// address is derived and has no private key.
#[derive(Clone, Copy, Debug)]
pub struct Address {
    pub bytes: [u8; 32],
}

impl View for Address {
    type V = Seq<u8>;

    open spec fn view(&self) -> Seq<u8> {
        self.bytes@
    }
}

impl Address {
    pub fn new(bytes: [u8; 32]) -> (r: Address)
        ensures
            r@ == bytes@,
    {
        Address { bytes }
    }

    /// Byte-for-byte equality of two addresses.
    pub fn same_as(&self, other: &Address) -> (r: bool)
        ensures
            r <==> self@ == other@,
    {
        let mut i: usize = 0;
        while i < 32
            invariant
                i <= 32,
                forall|j: int| 0 <= j < i ==> self.bytes@[j] == other.bytes@[j],
            decreases 32 - i,
        {
            if self.bytes[i] != other.bytes[i] {
                return false;
            }
            i = i + 1;
        }
        proof {
            assert(self@ =~= other@);
        }
        true
    }

    /// The address as a fresh byte vector, for use as derivation seed
    /// material.
    pub fn to_seed(&self) -> (r: Vec<u8>)
        ensures
            r@ == self@,
    {
        vstd::slice::slice_to_vec(self.bytes.as_slice())
    }
}

} // verus!
