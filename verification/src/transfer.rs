//! The value-transfer adapter: movement of plain units between a source
//! balance and a custody balance. One pair of operations serves both escrow
//! kinds; an outgoing transfer is permitted only under a capability that
//! certifies the custody address being debited.

use vstd::prelude::*;

use crate::address::Address;
use crate::authority::Capability;
use crate::derivation::pda_of;
use crate::errors::CustomError;

verus! {

/// Inbound transfer: move `amount` units from a source balance into a
/// custody balance. Depositing needs no capability; it only needs the
/// source to cover the amount. Either both balances change or neither does.
pub fn transfer_in(from: &mut u64, to: &mut u64, amount: u64) -> (r: Result<(), CustomError>)
    ensures
        r is Ok <==> (*old(from) >= amount && *old(to) + amount <= u64::MAX),
        r is Ok ==> *final(from) == *old(from) - amount && *final(to) == *old(to) + amount,
        r is Err ==> *final(from) == *old(from) && *final(to) == *old(to),
        *old(from) < amount ==> r == Err::<(), CustomError>(CustomError::InsufficientFunds),
        (*old(from) >= amount && *old(to) + amount > u64::MAX) ==> r == Err::<(), CustomError>(
            CustomError::ArithmeticOverflow,
        ),
{
    if *from < amount {
        return Err(CustomError::InsufficientFunds);
    }
    if amount > u64::MAX - *to {
        return Err(CustomError::ArithmeticOverflow);
    }
    *from = *from - amount;
    *to = *to + amount;
    Ok(())
}

/// Outbound transfer: move `amount` units out of a custody balance. The
/// capability is verified against the custody address first; a transfer
/// under a capability that does not certify the address never moves
/// anything. Either both balances change or neither does.
pub fn transfer_out(
    program: &Address,
    custody: &Address,
    capability: &Capability,
    from: &mut u64,
    to: &mut u64,
    amount: u64,
) -> (r: Result<(), CustomError>)
    ensures
        r is Ok <==> (pda_of(capability.seed_material(), program@) == Some(custody@) && *old(from)
            >= amount && *old(to) + amount <= u64::MAX),
        r is Ok ==> *final(from) == *old(from) - amount && *final(to) == *old(to) + amount,
        r is Err ==> *final(from) == *old(from) && *final(to) == *old(to),
        pda_of(capability.seed_material(), program@) != Some(custody@) ==> r == Err::<
            (),
            CustomError,
        >(CustomError::AuthorityMismatch),
        (pda_of(capability.seed_material(), program@) == Some(custody@) && *old(from) < amount)
            ==> r == Err::<(), CustomError>(CustomError::InsufficientFunds),
        (pda_of(capability.seed_material(), program@) == Some(custody@) && *old(from) >= amount
            && *old(to) + amount > u64::MAX) ==> r == Err::<(), CustomError>(
            CustomError::ArithmeticOverflow,
        ),
{
    if !capability.certifies(program, custody) {
        return Err(CustomError::AuthorityMismatch);
    }
    if *from < amount {
        return Err(CustomError::InsufficientFunds);
    }
    if amount > u64::MAX - *to {
        return Err(CustomError::ArithmeticOverflow);
    }
    *from = *from - amount;
    *to = *to + amount;
    Ok(())
}

} // verus!
