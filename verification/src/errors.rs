//! The typed failures of the escrow operations.

use vstd::prelude::*;

verus! {

/// Why an escrow operation was rejected. Every operation either commits in
/// full or returns one of these with the state unchanged.
#[derive(Clone, Copy, Debug, PartialEq, Eq, Structural)]
pub enum CustomError {
    /// A withdrawal was attempted while the owed balance is zero.
    InsufficientBalance,
    /// The deposit source cannot cover the requested amount.
    InsufficientFunds,
    /// Crediting the balance would overflow its 64-bit range.
    ArithmeticOverflow,
    /// A capability does not match the custody address it is presented for.
    AuthorityMismatch,
    /// A cached proof index disagrees with a freshly derived one; this
    /// signals an internal inconsistency, never a user error.
    DerivationDrift,
    /// The token class was already created; there is one per escrow.
    AlreadyExists,
}

} // verus!
