//! A custodial escrow ledger.
//!
//! Users deposit value (native units or units of a fungible token) into a
//! custody account that no private key controls. The custody address is
//! derived deterministically from the program identity, a purpose tag and the
//! user's identity, so it can always be found again; authority over it is
//! reconstructed from the same seed material plus a cached proof index,
//! instead of being held as a key. The ledger tracks each user's owed
//! balance and releases it in full on demand.

pub mod address;
pub mod authority;
pub mod derivation;
pub mod errors;
pub mod escrow;
pub mod record;
pub mod transfer;
