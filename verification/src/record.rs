//! The per-user balance record and its ledger operations.

use vstd::prelude::*;

use crate::errors::CustomError;

verus! {

/// The two escrow kinds: native-value custody and fungible-token custody.
/// Each kind has its own proof-index slot in a record.
#[derive(Clone, Copy, Debug, PartialEq, Eq, Structural)]
pub enum EscrowKind {
    Native,
    Token,
}

/// One user's balance record: the owed balance and the cached proof indices
/// needed to rebuild authority over the custody addresses. Created lazily
/// with balance zero and unset indices; never deleted.
#[derive(Clone, Copy, Debug)]
pub struct StackAccount {
    pub balance: u64,
    pub native_proof_index: Option<u8>,
    pub token_proof_index: Option<u8>,
}

impl StackAccount {
    /// The cached proof index of the given slot.
    pub open spec fn proof_index(self, slot: EscrowKind) -> Option<u8> {
        match slot {
            EscrowKind::Native => self.native_proof_index,
            EscrowKind::Token => self.token_proof_index,
        }
    }

    /// A fresh record: zero balance, no proof index cached yet.
    pub fn new() -> (r: StackAccount)
        ensures
            r.balance == 0,
            r.native_proof_index is None,
            r.token_proof_index is None,
    {
        StackAccount { balance: 0, native_proof_index: None, token_proof_index: None }
    }

    /// Credit the owed balance. Rejects the whole operation, leaving the
    /// record unchanged, when the sum would overflow the 64-bit range.
    pub fn credit(&mut self, amount: u64) -> (r: Result<(), CustomError>)
        ensures
            r is Ok <==> old(self).balance + amount <= u64::MAX,
            r is Ok ==> final(self).balance == old(self).balance + amount,
            r is Err ==> r == Err::<(), CustomError>(CustomError::ArithmeticOverflow)
                && *final(self) == *old(self),
            final(self).native_proof_index == old(self).native_proof_index,
            final(self).token_proof_index == old(self).token_proof_index,
    {
        if amount <= u64::MAX - self.balance {
            self.balance = self.balance + amount;
            Ok(())
        } else {
            Err(CustomError::ArithmeticOverflow)
        }
    }

    /// Withdraw the full owed balance atomically: returns it and sets it to
    /// zero. There is no partial withdrawal. Fails, leaving the record
    /// unchanged, when nothing is owed.
    pub fn debit_all(&mut self) -> (r: Result<u64, CustomError>)
        ensures
            r is Ok <==> old(self).balance > 0,
            r is Ok ==> r == Ok::<u64, CustomError>(old(self).balance) && final(self).balance == 0,
            r is Err ==> r == Err::<u64, CustomError>(CustomError::InsufficientBalance)
                && *final(self) == *old(self),
            final(self).native_proof_index == old(self).native_proof_index,
            final(self).token_proof_index == old(self).token_proof_index,
    {
        if self.balance > 0 {
            let b = self.balance;
            self.balance = 0;
            Ok(b)
        } else {
            Err(CustomError::InsufficientBalance)
        }
    }

    /// Cache a proof index into a slot, only if that slot is unset or already
    /// holds the same index. Caching a different index into a set slot is a
    /// derivation drift: an internal-consistency failure, and the record is
    /// left unchanged.
    pub fn cache_proof_index(&mut self, slot: EscrowKind, index: u8) -> (r: Result<
        (),
        CustomError,
    >)
        ensures
            r is Ok <==> (old(self).proof_index(slot) is None || old(self).proof_index(slot)
                == Some(index)),
            r is Ok ==> final(self).proof_index(slot) == Some(index),
            r is Err ==> r == Err::<(), CustomError>(CustomError::DerivationDrift)
                && *final(self) == *old(self),
            final(self).balance == old(self).balance,
            forall|s: EscrowKind| s != slot ==> final(self).proof_index(s) == old(self).proof_index(
                s,
            ),
    {
        let slot_value = match slot {
            EscrowKind::Native => self.native_proof_index,
            EscrowKind::Token => self.token_proof_index,
        };
        match slot_value {
            None => {
                match slot {
                    EscrowKind::Native => {
                        self.native_proof_index = Some(index);
                    },
                    EscrowKind::Token => {
                        self.token_proof_index = Some(index);
                    },
                }
                Ok(())
            },
            Some(i) => {
                if i == index {
                    Ok(())
                } else {
                    Err(CustomError::DerivationDrift)
                }
            },
        }
    }
}

} // verus!
