//! The escrow facade: the balance ledger, both escrow kinds and the token
//! class, with the custody invariants they protect.
//!
//! Per user and escrow kind the ledger owns one balance record, keyed by the
//! derived custody address. The facade maintains, at all times: custody
//! addresses and cached proof indices are exactly what derivation yields;
//! the value actually held by a custody address equals the balance owed to
//! its user; and for the token kind, a user's holdings never exceed the
//! minted supply.

use vstd::prelude::*;

use crate::address::Address;
use crate::authority::Capability;
use crate::derivation::derive_custody;
use crate::derivation::derive_program_wide;
use crate::derivation::find_pda_of;
use crate::derivation::issuance_seed;
use crate::derivation::issuance_tag;
use crate::derivation::native_escrow_seed;
use crate::derivation::native_escrow_tag;
use crate::derivation::pda_of;
use crate::derivation::token_escrow_seed;
use crate::derivation::token_escrow_tag;
use crate::errors::CustomError;
use crate::record::EscrowKind;
use crate::record::StackAccount;
use crate::transfer::transfer_in;
use crate::transfer::transfer_out;

verus! {

/// What derivation yields for a user's native-escrow custody account.
pub open spec fn native_derivation(program: Seq<u8>, user: Seq<u8>) -> Option<(Seq<u8>, u8)> {
    find_pda_of(seq![native_escrow_tag(), user], program)
}

/// What derivation yields for a user's token-escrow custody account.
pub open spec fn token_derivation(program: Seq<u8>, user: Seq<u8>) -> Option<(Seq<u8>, u8)> {
    find_pda_of(seq![token_escrow_tag(), user], program)
}

/// What derivation yields for the program-wide token class.
pub open spec fn issuance_derivation(program: Seq<u8>) -> Option<(Seq<u8>, u8)> {
    find_pda_of(seq![issuance_tag()], program)
}

/// Metadata for creating the token class.
pub struct InitTokenParams {
    pub name: String,
    pub symbol: String,
    pub uri: String,
    pub decimals: u8,
}

/// The identity of the escrow's fungible token class: its derived mint
/// address and the proof index that rebuilds authority over it.
#[derive(Clone, Copy, Debug)]
pub struct TokenClass {
    pub mint: Address,
    pub proof_index: u8,
    pub decimals: u8,
}

/// The model of one user's record in the native escrow.
pub ghost struct RecordInfo {
    pub balance: u64,
    pub proof_index: u8,
    pub custody: Seq<u8>,
}

/// The model of one user's record in the token escrow, together with the
/// user's own token holdings.
pub ghost struct TokenRecordInfo {
    pub balance: u64,
    pub proof_index: u8,
    pub custody: Seq<u8>,
    pub user_tokens: u64,
}

/// The model of the token class.
pub ghost struct ClassInfo {
    pub mint: Seq<u8>,
    pub proof_index: u8,
    pub decimals: u8,
    pub supply: u64,
}

/// The mathematical model of the whole escrow: the program identity, one
/// record map per escrow kind keyed by user identity, and the token class.
pub ghost struct EscrowView {
    pub program: Seq<u8>,
    pub native: Map<Seq<u8>, RecordInfo>,
    pub token: Map<Seq<u8>, TokenRecordInfo>,
    pub class: Option<ClassInfo>,
}

impl EscrowView {
    /// The owed native balance of a user; zero without a record.
    pub open spec fn native_balance(self, user: Seq<u8>) -> u64 {
        if self.native.dom().contains(user) {
            self.native[user].balance
        } else {
            0
        }
    }

    /// The owed token balance of a user; zero without a record.
    pub open spec fn token_balance(self, user: Seq<u8>) -> u64 {
        if self.token.dom().contains(user) {
            self.token[user].balance
        } else {
            0
        }
    }

    /// The user's own token holdings outside the escrow; zero without a
    /// record.
    pub open spec fn user_token_balance(self, user: Seq<u8>) -> u64 {
        if self.token.dom().contains(user) {
            self.token[user].user_tokens
        } else {
            0
        }
    }

    /// The total minted supply of the token class; zero before creation.
    pub open spec fn supply(self) -> u64 {
        match self.class {
            Some(c) => c.supply,
            None => 0,
        }
    }
}

#[derive(Clone, Copy)]
struct NativeEntry {
    user: Address,
    custody: Address,
    record: StackAccount,
    custody_lamports: u64,
}

#[derive(Clone, Copy)]
struct TokenEntry {
    user: Address,
    custody: Address,
    record: StackAccount,
    custody_tokens: u64,
    user_tokens: u64,
}

spec fn native_info(e: NativeEntry) -> RecordInfo {
    RecordInfo {
        balance: e.record.balance,
        proof_index: match e.record.native_proof_index {
            Some(b) => b,
            None => 0,
        },
        custody: e.custody@,
    }
}

spec fn token_info(e: TokenEntry) -> TokenRecordInfo {
    TokenRecordInfo {
        balance: e.record.balance,
        proof_index: match e.record.token_proof_index {
            Some(b) => b,
            None => 0,
        },
        custody: e.custody@,
        user_tokens: e.user_tokens,
    }
}

spec fn native_map_of(s: Seq<NativeEntry>) -> Map<Seq<u8>, RecordInfo> {
    Map::new(
        |u: Seq<u8>| exists|i: int| 0 <= i < s.len() && s[i].user@ == u,
        |u: Seq<u8>|
            native_info(
                s[choose|i: int| 0 <= i < s.len() && s[i].user@ == u],
            ),
    )
}

spec fn token_map_of(s: Seq<TokenEntry>) -> Map<Seq<u8>, TokenRecordInfo> {
    Map::new(
        |u: Seq<u8>| exists|i: int| 0 <= i < s.len() && s[i].user@ == u,
        |u: Seq<u8>|
            token_info(
                s[choose|i: int| 0 <= i < s.len() && s[i].user@ == u],
            ),
    )
}

spec fn unique_native(s: Seq<NativeEntry>) -> bool {
    forall|i: int, j: int| 0 <= i < j < s.len() ==> s[i].user@ != s[j].user@
}

spec fn unique_token(s: Seq<TokenEntry>) -> bool {
    forall|i: int, j: int| 0 <= i < j < s.len() ==> s[i].user@ != s[j].user@
}

spec fn native_entry_ok(program: Seq<u8>, e: NativeEntry) -> bool {
    &&& e.record.native_proof_index matches Some(b)
        && native_derivation(program, e.user@) == Some((e.custody@, b))
        && pda_of(seq![native_escrow_tag(), e.user@, seq![b]], program) == Some(e.custody@)
    &&& e.custody_lamports == e.record.balance
}

spec fn token_entry_ok(program: Seq<u8>, supply: u64, e: TokenEntry) -> bool {
    &&& e.record.token_proof_index matches Some(b)
        && token_derivation(program, e.user@) == Some((e.custody@, b))
        && pda_of(seq![token_escrow_tag(), e.user@, seq![b]], program) == Some(e.custody@)
    &&& e.custody_tokens == e.record.balance
    &&& e.user_tokens + e.record.balance <= supply
}

spec fn class_ok(program: Seq<u8>, tc: TokenClass) -> bool {
    &&& issuance_derivation(program) == Some((tc.mint@, tc.proof_index))
    &&& pda_of(seq![issuance_tag(), seq![tc.proof_index]], program) == Some(tc.mint@)
}

/// The escrow system: balance ledger, custody authority and transfer
/// adapters behind one interface. All internal consistency is a type
/// invariant, so no caller obligation is needed beyond the stated
/// preconditions.
pub struct Escrow {
    program: Address,
    native: Vec<NativeEntry>,
    token: Vec<TokenEntry>,
    token_class: Option<TokenClass>,
    token_supply: u64,
}

impl View for Escrow {
    type V = EscrowView;

    closed spec fn view(&self) -> EscrowView {
        EscrowView {
            program: self.program@,
            native: native_map_of(self.native@),
            token: token_map_of(self.token@),
            class: match self.token_class {
                Some(tc) => Some(
                    ClassInfo {
                        mint: tc.mint@,
                        proof_index: tc.proof_index,
                        decimals: tc.decimals,
                        supply: self.token_supply,
                    },
                ),
                None => None,
            },
        }
    }
}

impl Escrow {
    #[verifier::type_invariant]
    spec fn wf(self) -> bool {
        &&& unique_native(self.native@)
        &&& forall|i: int|
            0 <= i < self.native@.len() ==> native_entry_ok(
                self.program@,
                #[trigger] self.native@[i],
            )
        &&& unique_token(self.token@)
        &&& forall|i: int|
            0 <= i < self.token@.len() ==> token_entry_ok(
                self.program@,
                self.token_supply,
                #[trigger] self.token@[i],
            )
        &&& self.token_class matches Some(tc) ==> class_ok(self.program@, tc)
        &&& self.token_class is None ==> self.token@.len() == 0 && self.token_supply == 0
    }

    /// A fresh escrow for one program identity: no records, no token class.
    pub fn new(program: Address) -> (r: Escrow)
        ensures
            r@.program == program@,
            r@.native == Map::<Seq<u8>, RecordInfo>::empty(),
            r@.token == Map::<Seq<u8>, TokenRecordInfo>::empty(),
            r@.class is None,
    {
        let r = Escrow {
            program,
            native: Vec::new(),
            token: Vec::new(),
            token_class: None,
            token_supply: 0,
        };
        proof {
            assert(r@.native =~= Map::<Seq<u8>, RecordInfo>::empty());
            assert(r@.token =~= Map::<Seq<u8>, TokenRecordInfo>::empty());
        }
        r
    }

    /// The program identity this escrow derives custody addresses for.
    pub fn program_id(&self) -> (r: Address)
        ensures
            r@ == self@.program,
    {
        self.program
    }

    /// The owed native balance of a user.
    pub fn native_balance_of(&self, user: &Address) -> (r: u64)
        ensures
            r == self@.native_balance(user@),
    {
        proof {
            use_type_invariant(&*self);
        }
        match find_native_entry(&self.native, user) {
            Some(k) => {
                proof {
                    lemma_native_lookup(self.native@, k as int);
                }
                self.native[k].record.balance
            },
            None => {
                proof {
                    lemma_native_absent(self.native@, user@);
                }
                0
            },
        }
    }

    /// What the user's native custody account actually holds. It always
    /// equals the owed balance: no other source moves value in or out of a
    /// custody address.
    pub fn native_custody_holdings(&self, user: &Address) -> (r: u64)
        ensures
            r == self@.native_balance(user@),
    {
        proof {
            use_type_invariant(&*self);
        }
        match find_native_entry(&self.native, user) {
            Some(k) => {
                proof {
                    lemma_native_lookup(self.native@, k as int);
                    assert(native_entry_ok(self.program@, self.native@[k as int]));
                }
                self.native[k].custody_lamports
            },
            None => {
                proof {
                    lemma_native_absent(self.native@, user@);
                }
                0
            },
        }
    }

    /// The user's native custody address, once a record exists.
    pub fn native_custody_of(&self, user: &Address) -> (r: Option<Address>)
        ensures
            self@.native.dom().contains(user@) ==> (r matches Some(a) && a@ == self@.native[user@].custody),
            !self@.native.dom().contains(user@) ==> r is None,
    {
        proof {
            use_type_invariant(&*self);
        }
        match find_native_entry(&self.native, user) {
            Some(k) => {
                proof {
                    lemma_native_lookup(self.native@, k as int);
                }
                Some(self.native[k].custody)
            },
            None => {
                proof {
                    lemma_native_absent(self.native@, user@);
                }
                None
            },
        }
    }

    /// The user's cached native proof index, once a record exists.
    pub fn native_proof_index_of(&self, user: &Address) -> (r: Option<u8>)
        ensures
            self@.native.dom().contains(user@) ==> r == Some(self@.native[user@].proof_index),
            !self@.native.dom().contains(user@) ==> r is None,
    {
        proof {
            use_type_invariant(&*self);
        }
        match find_native_entry(&self.native, user) {
            Some(k) => {
                proof {
                    lemma_native_lookup(self.native@, k as int);
                    assert(native_entry_ok(self.program@, self.native@[k as int]));
                }
                self.native[k].record.native_proof_index
            },
            None => {
                proof {
                    lemma_native_absent(self.native@, user@);
                }
                None
            },
        }
    }

    /// The owed token balance of a user.
    pub fn token_balance_of(&self, user: &Address) -> (r: u64)
        ensures
            r == self@.token_balance(user@),
    {
        proof {
            use_type_invariant(&*self);
        }
        match find_token_entry(&self.token, user) {
            Some(k) => {
                proof {
                    lemma_token_lookup(self.token@, k as int);
                }
                self.token[k].record.balance
            },
            None => {
                proof {
                    lemma_token_absent(self.token@, user@);
                }
                0
            },
        }
    }

    /// What the user's token custody sub-account actually holds. It always
    /// equals the owed token balance.
    pub fn token_custody_holdings(&self, user: &Address) -> (r: u64)
        ensures
            r == self@.token_balance(user@),
    {
        proof {
            use_type_invariant(&*self);
        }
        match find_token_entry(&self.token, user) {
            Some(k) => {
                proof {
                    lemma_token_lookup(self.token@, k as int);
                    assert(token_entry_ok(self.program@, self.token_supply, self.token@[k as int]));
                }
                self.token[k].custody_tokens
            },
            None => {
                proof {
                    lemma_token_absent(self.token@, user@);
                }
                0
            },
        }
    }

    /// The user's own token holdings outside the escrow.
    pub fn user_token_balance_of(&self, user: &Address) -> (r: u64)
        ensures
            r == self@.user_token_balance(user@),
    {
        proof {
            use_type_invariant(&*self);
        }
        match find_token_entry(&self.token, user) {
            Some(k) => {
                proof {
                    lemma_token_lookup(self.token@, k as int);
                }
                self.token[k].user_tokens
            },
            None => {
                proof {
                    lemma_token_absent(self.token@, user@);
                }
                0
            },
        }
    }

    /// The user's token custody address, once a record exists.
    pub fn token_custody_of(&self, user: &Address) -> (r: Option<Address>)
        ensures
            self@.token.dom().contains(user@) ==> (r matches Some(a) && a@ == self@.token[user@].custody),
            !self@.token.dom().contains(user@) ==> r is None,
    {
        proof {
            use_type_invariant(&*self);
        }
        match find_token_entry(&self.token, user) {
            Some(k) => {
                proof {
                    lemma_token_lookup(self.token@, k as int);
                }
                Some(self.token[k].custody)
            },
            None => {
                proof {
                    lemma_token_absent(self.token@, user@);
                }
                None
            },
        }
    }

    /// The token class, once created.
    pub fn token_class_of(&self) -> (r: Option<TokenClass>)
        ensures
            self@.class matches Some(c) ==> (r matches Some(tc) && tc.mint@ == c.mint
                && tc.proof_index == c.proof_index && tc.decimals == c.decimals),
            self@.class is None ==> r is None,
    {
        self.token_class
    }

    /// The total minted supply of the token class.
    pub fn supply_of(&self) -> (r: u64)
        ensures
            r == self@.supply(),
    {
        proof {
            use_type_invariant(&*self);
        }
        self.token_supply
    }

    /// Idempotent record creation for one user and escrow kind: if absent,
    /// the record is created with zero balance and its proof index cached;
    /// if already present, nothing changes at all — the same record is
    /// found again, never a duplicate.
    pub fn ensure_record(&mut self, user: &Address, kind: EscrowKind) -> (r: Result<
        (),
        CustomError,
    >)
        requires
            kind == EscrowKind::Token ==> old(self)@.class is Some,
        ensures
            final(self)@.program == old(self)@.program,
            final(self)@.class == old(self)@.class,
            kind == EscrowKind::Native ==> final(self)@.token == old(self)@.token,
            kind == EscrowKind::Token ==> final(self)@.native == old(self)@.native,
            kind == EscrowKind::Native ==> r == (if native_derivation(
                old(self)@.program,
                user@,
            ) is None {
                Err::<(), CustomError>(CustomError::AuthorityMismatch)
            } else {
                Ok::<(), CustomError>(())
            }),
            kind == EscrowKind::Token ==> r == (if token_derivation(
                old(self)@.program,
                user@,
            ) is None {
                Err::<(), CustomError>(CustomError::AuthorityMismatch)
            } else {
                Ok::<(), CustomError>(())
            }),
            (kind == EscrowKind::Native && r is Ok) ==> (native_derivation(
                old(self)@.program,
                user@,
            ) matches Some(p) && final(self)@.native == old(self)@.native.insert(
                user@,
                RecordInfo {
                    balance: old(self)@.native_balance(user@),
                    proof_index: p.1,
                    custody: p.0,
                },
            )),
            (kind == EscrowKind::Token && r is Ok) ==> (token_derivation(
                old(self)@.program,
                user@,
            ) matches Some(p) && final(self)@.token == old(self)@.token.insert(
                user@,
                TokenRecordInfo {
                    balance: old(self)@.token_balance(user@),
                    proof_index: p.1,
                    custody: p.0,
                    user_tokens: old(self)@.user_token_balance(user@),
                },
            )),
            (kind == EscrowKind::Native && old(self)@.native.dom().contains(user@))
                ==> final(self)@ == old(self)@,
            (kind == EscrowKind::Token && old(self)@.token.dom().contains(user@)) ==> final(self)@
                == old(self)@,
            r is Err ==> final(self)@ == old(self)@,
    {
        proof {
            use_type_invariant(&*self);
        }
        let ghost pre = *self;
        match kind {
            EscrowKind::Native => {
                let tag = native_escrow_seed();
                match derive_custody(&self.program, &tag, user) {
                    None => Err(CustomError::AuthorityMismatch),
                    Some((custody, bump)) => {
                        let mut entries: Vec<NativeEntry> = Vec::new();
                        core::mem::swap(&mut entries, &mut self.native);
                        match find_native_entry(&entries, user) {
                            Some(k) => {
                                proof {
                                    assert(native_entry_ok(pre.program@, pre.native@[k as int]));
                                    lemma_native_lookup(pre.native@, k as int);
                                }
                                core::mem::swap(&mut entries, &mut self.native);
                                proof {
                                    assert(*self == pre);
                                    assert(pre@.native.insert(
                                        user@,
                                        RecordInfo {
                                            balance: pre@.native_balance(user@),
                                            proof_index: bump,
                                            custody: custody@,
                                        },
                                    ) =~= pre@.native);
                                }
                                Ok(())
                            },
                            None => {
                                let mut rec = StackAccount::new();
                                let cr = rec.cache_proof_index(EscrowKind::Native, bump);
                                proof {
                                    assert(cr is Ok);
                                }
                                let e = NativeEntry {
                                    user: *user,
                                    custody,
                                    record: rec,
                                    custody_lamports: 0,
                                };
                                proof {
                                    lemma_native_absent(pre.native@, user@);
                                }
                                entries.push(e);
                                proof {
                                    lemma_native_push(pre.native@, e);
                                    assert forall|i: int|
                                        0 <= i < entries@.len() implies native_entry_ok(
                                        pre.program@,
                                        #[trigger] entries@[i],
                                    ) by {
                                        if i < pre.native@.len() {
                                            assert(entries@[i] == pre.native@[i]);
                                            assert(native_entry_ok(pre.program@, pre.native@[i]));
                                        }
                                    }
                                }
                                core::mem::swap(&mut entries, &mut self.native);
                                Ok(())
                            },
                        }
                    },
                }
            },
            EscrowKind::Token => {
                let tag = token_escrow_seed();
                match derive_custody(&self.program, &tag, user) {
                    None => Err(CustomError::AuthorityMismatch),
                    Some((custody, bump)) => {
                        let mut entries: Vec<TokenEntry> = Vec::new();
                        core::mem::swap(&mut entries, &mut self.token);
                        match find_token_entry(&entries, user) {
                            Some(k) => {
                                proof {
                                    assert(token_entry_ok(
                                        pre.program@,
                                        pre.token_supply,
                                        pre.token@[k as int],
                                    ));
                                    lemma_token_lookup(pre.token@, k as int);
                                }
                                core::mem::swap(&mut entries, &mut self.token);
                                proof {
                                    assert(*self == pre);
                                    assert(pre@.token.insert(
                                        user@,
                                        TokenRecordInfo {
                                            balance: pre@.token_balance(user@),
                                            proof_index: bump,
                                            custody: custody@,
                                            user_tokens: pre@.user_token_balance(user@),
                                        },
                                    ) =~= pre@.token);
                                }
                                Ok(())
                            },
                            None => {
                                let mut rec = StackAccount::new();
                                let cr = rec.cache_proof_index(EscrowKind::Token, bump);
                                proof {
                                    assert(cr is Ok);
                                }
                                let e = TokenEntry {
                                    user: *user,
                                    custody,
                                    record: rec,
                                    custody_tokens: 0,
                                    user_tokens: 0,
                                };
                                proof {
                                    lemma_token_absent(pre.token@, user@);
                                }
                                entries.push(e);
                                proof {
                                    lemma_token_push(pre.token@, e);
                                    assert forall|i: int|
                                        0 <= i < entries@.len() implies token_entry_ok(
                                        pre.program@,
                                        pre.token_supply,
                                        #[trigger] entries@[i],
                                    ) by {
                                        if i < pre.token@.len() {
                                            assert(entries@[i] == pre.token@[i]);
                                            assert(token_entry_ok(
                                                pre.program@,
                                                pre.token_supply,
                                                pre.token@[i],
                                            ));
                                        }
                                    }
                                }
                                core::mem::swap(&mut entries, &mut self.token);
                                Ok(())
                            },
                        }
                    },
                }
            },
        }
    }

    /// Deposit `amount` native units for `user`: derive the custody address,
    /// ensure the record exists with its proof index cached, move the amount
    /// from the user's wallet into custody, and credit the owed balance.
    /// Either every state change commits or none does.
    pub fn deposit(&mut self, user: &Address, from_wallet: &mut u64, amount: u64) -> (r: Result<
        (),
        CustomError,
    >)
        ensures
            final(self)@.program == old(self)@.program,
            final(self)@.class == old(self)@.class,
            final(self)@.token == old(self)@.token,
            r == (if native_derivation(old(self)@.program, user@) is None {
                Err::<(), CustomError>(CustomError::AuthorityMismatch)
            } else if *old(from_wallet) < amount {
                Err::<(), CustomError>(CustomError::InsufficientFunds)
            } else if old(self)@.native_balance(user@) + amount > u64::MAX {
                Err::<(), CustomError>(CustomError::ArithmeticOverflow)
            } else {
                Ok::<(), CustomError>(())
            }),
            r is Ok ==> (native_derivation(old(self)@.program, user@) matches Some(p)
                && final(self)@.native == old(self)@.native.insert(
                user@,
                RecordInfo {
                    balance: (old(self)@.native_balance(user@) + amount) as u64,
                    proof_index: p.1,
                    custody: p.0,
                },
            ) && *final(from_wallet) == *old(from_wallet) - amount),
            r is Err ==> final(self)@ == old(self)@ && *final(from_wallet) == *old(from_wallet),
    {
        proof {
            use_type_invariant(&*self);
        }
        let ghost pre = *self;
        let tag = native_escrow_seed();
        match derive_custody(&self.program, &tag, user) {
            None => Err(CustomError::AuthorityMismatch),
            Some((custody, bump)) => {
                let mut entries: Vec<NativeEntry> = Vec::new();
                core::mem::swap(&mut entries, &mut self.native);
                let found = find_native_entry(&entries, user);
                let (e, k, existed): (NativeEntry, usize, bool) = match found {
                    Some(k) => (entries[k], k, true),
                    None => (
                        NativeEntry {
                            user: *user,
                            custody,
                            record: StackAccount::new(),
                            custody_lamports: 0,
                        },
                        0,
                        false,
                    ),
                };
                proof {
                    if existed {
                        assert(native_entry_ok(pre.program@, pre.native@[k as int]));
                        lemma_native_lookup(pre.native@, k as int);
                    } else {
                        lemma_native_absent(pre.native@, user@);
                    }
                }
                let mut rec = e.record;
                let cr = rec.cache_proof_index(EscrowKind::Native, bump);
                proof {
                    assert(cr is Ok);
                }
                let mut cl = e.custody_lamports;
                match transfer_in(from_wallet, &mut cl, amount) {
                    Err(er) => {
                        core::mem::swap(&mut entries, &mut self.native);
                        proof {
                            assert(*self == pre);
                        }
                        Err(er)
                    },
                    Ok(()) => {
                        let cr2 = rec.credit(amount);
                        proof {
                            assert(cr2 is Ok);
                        }
                        let e2 = NativeEntry {
                            user: e.user,
                            custody: e.custody,
                            record: rec,
                            custody_lamports: cl,
                        };
                        if existed {
                            entries.set(k, e2);
                            proof {
                                lemma_native_update(pre.native@, e2, k as int);
                                assert forall|i: int|
                                    0 <= i < entries@.len() implies native_entry_ok(
                                    pre.program@,
                                    #[trigger] entries@[i],
                                ) by {
                                    if i != k as int {
                                        assert(entries@[i] == pre.native@[i]);
                                        assert(native_entry_ok(pre.program@, pre.native@[i]));
                                    }
                                }
                            }
                        } else {
                            entries.push(e2);
                            proof {
                                lemma_native_push(pre.native@, e2);
                                assert forall|i: int|
                                    0 <= i < entries@.len() implies native_entry_ok(
                                    pre.program@,
                                    #[trigger] entries@[i],
                                ) by {
                                    if i < pre.native@.len() {
                                        assert(entries@[i] == pre.native@[i]);
                                        assert(native_entry_ok(pre.program@, pre.native@[i]));
                                    }
                                }
                            }
                        }
                        core::mem::swap(&mut entries, &mut self.native);
                        Ok(())
                    },
                }
            },
        }
    }

    /// Create the escrow's token class: derive its program-wide mint
    /// address and the proof index that rebuilds issuance authority over
    /// it. There is one class per escrow; creating it twice fails and
    /// changes nothing.
    pub fn create_token(&mut self, metadata: InitTokenParams) -> (r: Result<
        TokenClass,
        CustomError,
    >)
        ensures
            final(self)@.program == old(self)@.program,
            final(self)@.native == old(self)@.native,
            final(self)@.token == old(self)@.token,
            r is Ok <==> (old(self)@.class is None && issuance_derivation(
                old(self)@.program,
            ) is Some),
            old(self)@.class is Some ==> r == Err::<TokenClass, CustomError>(
                CustomError::AlreadyExists,
            ),
            (old(self)@.class is None && issuance_derivation(old(self)@.program) is None) ==> r
                == Err::<TokenClass, CustomError>(CustomError::AuthorityMismatch),
            r matches Ok(tc) ==> (issuance_derivation(old(self)@.program) == Some(
                (tc.mint@, tc.proof_index),
            ) && tc.decimals == metadata.decimals && final(self)@.class == Some(
                ClassInfo {
                    mint: tc.mint@,
                    proof_index: tc.proof_index,
                    decimals: metadata.decimals,
                    supply: 0,
                },
            )),
            r is Err ==> final(self)@ == old(self)@,
    {
        proof {
            use_type_invariant(&*self);
        }
        match self.token_class {
            Some(_) => Err(CustomError::AlreadyExists),
            None => {
                let tag = issuance_seed();
                match derive_program_wide(&self.program, &tag) {
                    None => Err(CustomError::AuthorityMismatch),
                    Some((mint, bump)) => {
                        let tc = TokenClass {
                            mint,
                            proof_index: bump,
                            decimals: metadata.decimals,
                        };
                        self.token_class = Some(tc);
                        Ok(tc)
                    },
                }
            },
        }
    }

    /// Mint `amount` units of the token class into `user`'s own token
    /// account, raising the supply. The issuance capability rebuilt from
    /// the cached proof index is verified against the mint address
    /// presented; a mint that is not the class's own never mints anything.
    pub fn mint_spl(&mut self, mint: &Address, user: &Address, amount: u64) -> (r: Result<
        (),
        CustomError,
    >)
        requires
            old(self)@.class is Some,
        ensures
            final(self)@.program == old(self)@.program,
            final(self)@.native == old(self)@.native,
            r == (if (old(self)@.class matches Some(c) && mint@ != c.mint) {
                Err::<(), CustomError>(CustomError::AuthorityMismatch)
            } else if token_derivation(old(self)@.program, user@) is None {
                Err::<(), CustomError>(CustomError::AuthorityMismatch)
            } else if old(self)@.supply() + amount > u64::MAX {
                Err::<(), CustomError>(CustomError::ArithmeticOverflow)
            } else {
                Ok::<(), CustomError>(())
            }),
            r is Ok ==> (token_derivation(old(self)@.program, user@) matches Some(p)
                && final(self)@.token == old(self)@.token.insert(
                user@,
                TokenRecordInfo {
                    balance: old(self)@.token_balance(user@),
                    proof_index: p.1,
                    custody: p.0,
                    user_tokens: (old(self)@.user_token_balance(user@) + amount) as u64,
                },
            ) && (old(self)@.class matches Some(c) && final(self)@.class == Some(
                ClassInfo {
                    mint: c.mint,
                    proof_index: c.proof_index,
                    decimals: c.decimals,
                    supply: (c.supply + amount) as u64,
                },
            ))),
            r is Err ==> final(self)@ == old(self)@,
    {
        proof {
            use_type_invariant(&*self);
        }
        let ghost pre = *self;
        let tc = match self.token_class {
            Some(tc) => tc,
            None => {
                proof {
                    assert(false);
                }
                return Err(CustomError::AuthorityMismatch);
            },
        };
        let issuance = issuance_seed();
        let cap = Capability::authorize_program_wide(&issuance, tc.proof_index);
        if !cap.certifies(&self.program, mint) {
            return Err(CustomError::AuthorityMismatch);
        }
        let tag = token_escrow_seed();
        match derive_custody(&self.program, &tag, user) {
            None => Err(CustomError::AuthorityMismatch),
            Some((custody, bump)) => {
                if amount > u64::MAX - self.token_supply {
                    return Err(CustomError::ArithmeticOverflow);
                }
                let mut entries: Vec<TokenEntry> = Vec::new();
                core::mem::swap(&mut entries, &mut self.token);
                let found = find_token_entry(&entries, user);
                let (e, k, existed): (TokenEntry, usize, bool) = match found {
                    Some(k) => (entries[k], k, true),
                    None => (
                        TokenEntry {
                            user: *user,
                            custody,
                            record: StackAccount::new(),
                            custody_tokens: 0,
                            user_tokens: 0,
                        },
                        0,
                        false,
                    ),
                };
                proof {
                    if existed {
                        assert(token_entry_ok(pre.program@, pre.token_supply, pre.token@[k as int]));
                        lemma_token_lookup(pre.token@, k as int);
                    } else {
                        lemma_token_absent(pre.token@, user@);
                    }
                }
                let mut rec = e.record;
                let cr = rec.cache_proof_index(EscrowKind::Token, bump);
                proof {
                    assert(cr is Ok);
                }
                let new_user_tokens = e.user_tokens + amount;
                let e2 = TokenEntry {
                    user: e.user,
                    custody: e.custody,
                    record: rec,
                    custody_tokens: e.custody_tokens,
                    user_tokens: new_user_tokens,
                };
                self.token_supply = self.token_supply + amount;
                if existed {
                    entries.set(k, e2);
                    proof {
                        lemma_token_update(pre.token@, e2, k as int);
                        assert forall|i: int|
                            0 <= i < entries@.len() implies token_entry_ok(
                            pre.program@,
                            self.token_supply,
                            #[trigger] entries@[i],
                        ) by {
                            if i != k as int {
                                assert(entries@[i] == pre.token@[i]);
                                assert(token_entry_ok(pre.program@, pre.token_supply, pre.token@[i]));
                            }
                        }
                    }
                } else {
                    entries.push(e2);
                    proof {
                        lemma_token_push(pre.token@, e2);
                        assert forall|i: int|
                            0 <= i < entries@.len() implies token_entry_ok(
                            pre.program@,
                            self.token_supply,
                            #[trigger] entries@[i],
                        ) by {
                            if i < pre.token@.len() {
                                assert(entries@[i] == pre.token@[i]);
                                assert(token_entry_ok(pre.program@, pre.token_supply, pre.token@[i]));
                            }
                        }
                    }
                }
                core::mem::swap(&mut entries, &mut self.token);
                Ok(())
            },
        }
    }

    /// Move `amount` units from `user`'s own token account into the token
    /// custody of the escrow and credit the owed token balance. Either
    /// every state change commits or none does. Crediting can never
    /// overflow here: a user's holdings are bounded by the minted supply.
    pub fn deposit_spl(&mut self, user: &Address, amount: u64) -> (r: Result<(), CustomError>)
        requires
            old(self)@.class is Some,
        ensures
            final(self)@.program == old(self)@.program,
            final(self)@.native == old(self)@.native,
            final(self)@.class == old(self)@.class,
            r == (if token_derivation(old(self)@.program, user@) is None {
                Err::<(), CustomError>(CustomError::AuthorityMismatch)
            } else if old(self)@.user_token_balance(user@) < amount {
                Err::<(), CustomError>(CustomError::InsufficientFunds)
            } else {
                Ok::<(), CustomError>(())
            }),
            r is Ok ==> (token_derivation(old(self)@.program, user@) matches Some(p)
                && final(self)@.token == old(self)@.token.insert(
                user@,
                TokenRecordInfo {
                    balance: (old(self)@.token_balance(user@) + amount) as u64,
                    proof_index: p.1,
                    custody: p.0,
                    user_tokens: (old(self)@.user_token_balance(user@) - amount) as u64,
                },
            )),
            r is Err ==> final(self)@ == old(self)@,
    {
        proof {
            use_type_invariant(&*self);
        }
        let ghost pre = *self;
        let tag = token_escrow_seed();
        match derive_custody(&self.program, &tag, user) {
            None => Err(CustomError::AuthorityMismatch),
            Some((custody, bump)) => {
                let mut entries: Vec<TokenEntry> = Vec::new();
                core::mem::swap(&mut entries, &mut self.token);
                let found = find_token_entry(&entries, user);
                let (e, k, existed): (TokenEntry, usize, bool) = match found {
                    Some(k) => (entries[k], k, true),
                    None => (
                        TokenEntry {
                            user: *user,
                            custody,
                            record: StackAccount::new(),
                            custody_tokens: 0,
                            user_tokens: 0,
                        },
                        0,
                        false,
                    ),
                };
                proof {
                    if existed {
                        assert(token_entry_ok(pre.program@, pre.token_supply, pre.token@[k as int]));
                        lemma_token_lookup(pre.token@, k as int);
                    } else {
                        lemma_token_absent(pre.token@, user@);
                    }
                }
                let mut rec = e.record;
                let cr = rec.cache_proof_index(EscrowKind::Token, bump);
                proof {
                    assert(cr is Ok);
                }
                let mut user_tokens = e.user_tokens;
                let mut custody_tokens = e.custody_tokens;
                match transfer_in(&mut user_tokens, &mut custody_tokens, amount) {
                    Err(er) => {
                        core::mem::swap(&mut entries, &mut self.token);
                        proof {
                            assert(*self == pre);
                            assert(er == CustomError::InsufficientFunds);
                        }
                        Err(er)
                    },
                    Ok(()) => {
                        let cr2 = rec.credit(amount);
                        proof {
                            assert(cr2 is Ok);
                        }
                        let e2 = TokenEntry {
                            user: e.user,
                            custody: e.custody,
                            record: rec,
                            custody_tokens,
                            user_tokens,
                        };
                        if existed {
                            entries.set(k, e2);
                            proof {
                                lemma_token_update(pre.token@, e2, k as int);
                                assert forall|i: int|
                                    0 <= i < entries@.len() implies token_entry_ok(
                                    pre.program@,
                                    pre.token_supply,
                                    #[trigger] entries@[i],
                                ) by {
                                    if i != k as int {
                                        assert(entries@[i] == pre.token@[i]);
                                        assert(token_entry_ok(
                                            pre.program@,
                                            pre.token_supply,
                                            pre.token@[i],
                                        ));
                                    }
                                }
                            }
                        } else {
                            entries.push(e2);
                            proof {
                                lemma_token_push(pre.token@, e2);
                                assert forall|i: int|
                                    0 <= i < entries@.len() implies token_entry_ok(
                                    pre.program@,
                                    pre.token_supply,
                                    #[trigger] entries@[i],
                                ) by {
                                    if i < pre.token@.len() {
                                        assert(entries@[i] == pre.token@[i]);
                                        assert(token_entry_ok(
                                            pre.program@,
                                            pre.token_supply,
                                            pre.token@[i],
                                        ));
                                    }
                                }
                            }
                        }
                        core::mem::swap(&mut entries, &mut self.token);
                        Ok(())
                    },
                }
            },
        }
    }

    /// Withdraw the full owed token balance of `user` back into the user's
    /// own token account. The full amount is returned atomically; the
    /// authority over the token custody is rebuilt from the cached proof
    /// index and verified before anything moves. The destination can never
    /// overflow: holdings plus owed balance are bounded by the supply.
    pub fn withdraw_spl(&mut self, user: &Address) -> (r: Result<u64, CustomError>)
        ensures
            final(self)@.program == old(self)@.program,
            final(self)@.native == old(self)@.native,
            final(self)@.class == old(self)@.class,
            r == (if old(self)@.token_balance(user@) == 0 {
                Err::<u64, CustomError>(CustomError::InsufficientBalance)
            } else {
                Ok::<u64, CustomError>(old(self)@.token_balance(user@))
            }),
            r is Ok ==> (old(self)@.token.dom().contains(user@)
                && final(self)@.token == old(self)@.token.insert(
                user@,
                TokenRecordInfo {
                    balance: 0,
                    proof_index: old(self)@.token[user@].proof_index,
                    custody: old(self)@.token[user@].custody,
                    user_tokens: (old(self)@.user_token_balance(user@) + old(self)@.token_balance(
                        user@,
                    )) as u64,
                },
            )),
            r is Err ==> final(self)@ == old(self)@,
    {
        proof {
            use_type_invariant(&*self);
        }
        let ghost pre = *self;
        let mut entries: Vec<TokenEntry> = Vec::new();
        core::mem::swap(&mut entries, &mut self.token);
        let found = find_token_entry(&entries, user);
        match found {
            None => {
                proof {
                    lemma_token_absent(pre.token@, user@);
                }
                core::mem::swap(&mut entries, &mut self.token);
                proof {
                    assert(*self == pre);
                }
                Err(CustomError::InsufficientBalance)
            },
            Some(k) => {
                let e = entries[k];
                proof {
                    assert(token_entry_ok(pre.program@, pre.token_supply, pre.token@[k as int]));
                    lemma_token_lookup(pre.token@, k as int);
                }
                if e.record.balance == 0 {
                    core::mem::swap(&mut entries, &mut self.token);
                    proof {
                        assert(*self == pre);
                    }
                    Err(CustomError::InsufficientBalance)
                } else {
                    let b = e.record.balance;
                    let idx = match e.record.token_proof_index {
                        Some(i) => i,
                        None => {
                            proof {
                                assert(false);
                            }
                            0
                        },
                    };
                    let tag = token_escrow_seed();
                    let cap = Capability::authorize(&tag, user, idx);
                    let mut custody_tokens = e.custody_tokens;
                    let mut user_tokens = e.user_tokens;
                    match transfer_out(
                        &self.program,
                        &e.custody,
                        &cap,
                        &mut custody_tokens,
                        &mut user_tokens,
                        b,
                    ) {
                        Err(er) => {
                            proof {
                                assert(false);
                            }
                            core::mem::swap(&mut entries, &mut self.token);
                            Err(er)
                        },
                        Ok(()) => {
                            let mut rec = e.record;
                            let dr = rec.debit_all();
                            proof {
                                assert(dr is Ok);
                            }
                            let e2 = TokenEntry {
                                user: e.user,
                                custody: e.custody,
                                record: rec,
                                custody_tokens,
                                user_tokens,
                            };
                            entries.set(k, e2);
                            proof {
                                lemma_token_update(pre.token@, e2, k as int);
                                assert forall|i: int|
                                    0 <= i < entries@.len() implies token_entry_ok(
                                    pre.program@,
                                    pre.token_supply,
                                    #[trigger] entries@[i],
                                ) by {
                                    if i != k as int {
                                        assert(entries@[i] == pre.token@[i]);
                                        assert(token_entry_ok(
                                            pre.program@,
                                            pre.token_supply,
                                            pre.token@[i],
                                        ));
                                    }
                                }
                            }
                            core::mem::swap(&mut entries, &mut self.token);
                            Ok(b)
                        },
                    }
                }
            },
        }
    }

    /// Withdraw the full owed native balance of `user` into the user's
    /// wallet. The full amount is returned atomically; the authority over
    /// the custody address is rebuilt from the cached proof index and
    /// verified against the custody address before anything moves.
    pub fn withdraw(&mut self, user: &Address, to_wallet: &mut u64) -> (r: Result<
        u64,
        CustomError,
    >)
        requires
            *old(to_wallet) + old(self)@.native_balance(user@) <= u64::MAX,
        ensures
            final(self)@.program == old(self)@.program,
            final(self)@.class == old(self)@.class,
            final(self)@.token == old(self)@.token,
            r == (if old(self)@.native_balance(user@) == 0 {
                Err::<u64, CustomError>(CustomError::InsufficientBalance)
            } else {
                Ok::<u64, CustomError>(old(self)@.native_balance(user@))
            }),
            r is Ok ==> (old(self)@.native.dom().contains(user@)
                && final(self)@.native == old(self)@.native.insert(
                user@,
                RecordInfo {
                    balance: 0,
                    proof_index: old(self)@.native[user@].proof_index,
                    custody: old(self)@.native[user@].custody,
                },
            ) && *final(to_wallet) == *old(to_wallet) + old(self)@.native_balance(user@)),
            r is Err ==> final(self)@ == old(self)@ && *final(to_wallet) == *old(to_wallet),
    {
        proof {
            use_type_invariant(&*self);
        }
        let ghost pre = *self;
        let mut entries: Vec<NativeEntry> = Vec::new();
        core::mem::swap(&mut entries, &mut self.native);
        let found = find_native_entry(&entries, user);
        match found {
            None => {
                proof {
                    lemma_native_absent(pre.native@, user@);
                }
                core::mem::swap(&mut entries, &mut self.native);
                proof {
                    assert(*self == pre);
                }
                Err(CustomError::InsufficientBalance)
            },
            Some(k) => {
                let e = entries[k];
                proof {
                    assert(native_entry_ok(pre.program@, pre.native@[k as int]));
                    lemma_native_lookup(pre.native@, k as int);
                }
                if e.record.balance == 0 {
                    core::mem::swap(&mut entries, &mut self.native);
                    proof {
                        assert(*self == pre);
                    }
                    Err(CustomError::InsufficientBalance)
                } else {
                    let b = e.record.balance;
                    let idx = match e.record.native_proof_index {
                        Some(i) => i,
                        None => {
                            proof {
                                assert(false);
                            }
                            0
                        },
                    };
                    let tag = native_escrow_seed();
                    let cap = Capability::authorize(&tag, user, idx);
                    let mut cl = e.custody_lamports;
                    match transfer_out(&self.program, &e.custody, &cap, &mut cl, to_wallet, b) {
                        Err(er) => {
                            proof {
                                assert(false);
                            }
                            core::mem::swap(&mut entries, &mut self.native);
                            Err(er)
                        },
                        Ok(()) => {
                            let mut rec = e.record;
                            let dr = rec.debit_all();
                            proof {
                                assert(dr is Ok);
                            }
                            let e2 = NativeEntry {
                                user: e.user,
                                custody: e.custody,
                                record: rec,
                                custody_lamports: cl,
                            };
                            entries.set(k, e2);
                            proof {
                                lemma_native_update(pre.native@, e2, k as int);
                                assert forall|i: int|
                                    0 <= i < entries@.len() implies native_entry_ok(
                                    pre.program@,
                                    #[trigger] entries@[i],
                                ) by {
                                    if i != k as int {
                                        assert(entries@[i] == pre.native@[i]);
                                        assert(native_entry_ok(pre.program@, pre.native@[i]));
                                    }
                                }
                            }
                            core::mem::swap(&mut entries, &mut self.native);
                            Ok(b)
                        },
                    }
                }
            },
        }
    }
}

/// Proof-index immutability: any two records for the same program and user
/// whose proof index and custody address are what derivation yields agree
/// on both, whatever else happened between the states that hold them.
/// Caching can therefore never drift: a re-derived index always equals the
/// cached one.
pub proof fn lemma_proof_index_immutable(
    program: Seq<u8>,
    user: Seq<u8>,
    i1: RecordInfo,
    i2: RecordInfo,
)
    requires
        native_derivation(program, user) matches Some(p) && i1.proof_index == p.1 && i1.custody
            == p.0,
        native_derivation(program, user) matches Some(q) && i2.proof_index == q.1 && i2.custody
            == q.0,
    ensures
        i1.proof_index == i2.proof_index,
        i1.custody == i2.custody,
{
}

fn find_native_entry(entries: &Vec<NativeEntry>, user: &Address) -> (r: Option<usize>)
    ensures
        r matches Some(k) ==> k < entries@.len() && entries@[k as int].user@ == user@,
        r is None ==> forall|i: int| 0 <= i < entries@.len() ==> entries@[i].user@ != user@,
{
    let mut i: usize = 0;
    while i < entries.len()
        invariant
            i <= entries@.len(),
            forall|j: int| 0 <= j < i ==> entries@[j].user@ != user@,
        decreases entries@.len() - i,
    {
        if entries[i].user.same_as(user) {
            return Some(i);
        }
        i = i + 1;
    }
    None
}

fn find_token_entry(entries: &Vec<TokenEntry>, user: &Address) -> (r: Option<usize>)
    ensures
        r matches Some(k) ==> k < entries@.len() && entries@[k as int].user@ == user@,
        r is None ==> forall|i: int| 0 <= i < entries@.len() ==> entries@[i].user@ != user@,
{
    let mut i: usize = 0;
    while i < entries.len()
        invariant
            i <= entries@.len(),
            forall|j: int| 0 <= j < i ==> entries@[j].user@ != user@,
        decreases entries@.len() - i,
    {
        if entries[i].user.same_as(user) {
            return Some(i);
        }
        i = i + 1;
    }
    None
}

proof fn lemma_native_lookup(s: Seq<NativeEntry>, k: int)
    requires
        unique_native(s),
        0 <= k < s.len(),
    ensures
        native_map_of(s).dom().contains(s[k].user@),
        native_map_of(s)[s[k].user@] == native_info(s[k]),
{
    let u = s[k].user@;
    assert(0 <= k < s.len() && s[k].user@ == u);
    let i = choose|i: int| 0 <= i < s.len() && s[i].user@ == u;
    if i < k {
        assert(s[i].user@ != s[k].user@);
    }
    if k < i {
        assert(s[k].user@ != s[i].user@);
    }
}

proof fn lemma_token_lookup(s: Seq<TokenEntry>, k: int)
    requires
        unique_token(s),
        0 <= k < s.len(),
    ensures
        token_map_of(s).dom().contains(s[k].user@),
        token_map_of(s)[s[k].user@] == token_info(s[k]),
{
    let u = s[k].user@;
    assert(0 <= k < s.len() && s[k].user@ == u);
    let i = choose|i: int| 0 <= i < s.len() && s[i].user@ == u;
    if i < k {
        assert(s[i].user@ != s[k].user@);
    }
    if k < i {
        assert(s[k].user@ != s[i].user@);
    }
}

proof fn lemma_native_update(s: Seq<NativeEntry>, e: NativeEntry, k: int)
    requires
        unique_native(s),
        0 <= k < s.len(),
        e.user@ == s[k].user@,
    ensures
        unique_native(s.update(k, e)),
        native_map_of(s.update(k, e)) == native_map_of(s).insert(s[k].user@, native_info(e)),
{
    let s2 = s.update(k, e);
    assert forall|i: int, j: int| 0 <= i < j < s2.len() implies s2[i].user@ != s2[j].user@ by {
        assert(s[i].user@ != s[j].user@);
    }
    let m1 = native_map_of(s2);
    let m2 = native_map_of(s).insert(s[k].user@, native_info(e));
    assert forall|u: Seq<u8>| m1.dom().contains(u) implies m2.dom().contains(u) && m1[u]
        == m2[u] by {
        let i = choose|i: int| 0 <= i < s2.len() && s2[i].user@ == u;
        if u == s[k].user@ {
            lemma_native_lookup(s2, k);
        } else {
            assert(i != k);
            assert(0 <= i < s.len() && s[i].user@ == u);
            lemma_native_lookup(s2, i);
            lemma_native_lookup(s, i);
        }
    }
    assert forall|u: Seq<u8>| m2.dom().contains(u) implies m1.dom().contains(u) by {
        if u == s[k].user@ {
            assert(0 <= k < s2.len() && s2[k].user@ == u);
        } else {
            let i = choose|i: int| 0 <= i < s.len() && s[i].user@ == u;
            assert(0 <= i < s2.len() && s2[i].user@ == u);
        }
    }
    assert(m1 =~= m2);
}

proof fn lemma_token_update(s: Seq<TokenEntry>, e: TokenEntry, k: int)
    requires
        unique_token(s),
        0 <= k < s.len(),
        e.user@ == s[k].user@,
    ensures
        unique_token(s.update(k, e)),
        token_map_of(s.update(k, e)) == token_map_of(s).insert(s[k].user@, token_info(e)),
{
    let s2 = s.update(k, e);
    assert forall|i: int, j: int| 0 <= i < j < s2.len() implies s2[i].user@ != s2[j].user@ by {
        assert(s[i].user@ != s[j].user@);
    }
    let m1 = token_map_of(s2);
    let m2 = token_map_of(s).insert(s[k].user@, token_info(e));
    assert forall|u: Seq<u8>| m1.dom().contains(u) implies m2.dom().contains(u) && m1[u]
        == m2[u] by {
        let i = choose|i: int| 0 <= i < s2.len() && s2[i].user@ == u;
        if u == s[k].user@ {
            lemma_token_lookup(s2, k);
        } else {
            assert(i != k);
            assert(0 <= i < s.len() && s[i].user@ == u);
            lemma_token_lookup(s2, i);
            lemma_token_lookup(s, i);
        }
    }
    assert forall|u: Seq<u8>| m2.dom().contains(u) implies m1.dom().contains(u) by {
        if u == s[k].user@ {
            assert(0 <= k < s2.len() && s2[k].user@ == u);
        } else {
            let i = choose|i: int| 0 <= i < s.len() && s[i].user@ == u;
            assert(0 <= i < s2.len() && s2[i].user@ == u);
        }
    }
    assert(m1 =~= m2);
}

proof fn lemma_native_push(s: Seq<NativeEntry>, e: NativeEntry)
    requires
        unique_native(s),
        forall|i: int| 0 <= i < s.len() ==> s[i].user@ != e.user@,
    ensures
        unique_native(s.push(e)),
        native_map_of(s.push(e)) == native_map_of(s).insert(e.user@, native_info(e)),
{
    let s2 = s.push(e);
    assert forall|i: int, j: int| 0 <= i < j < s2.len() implies s2[i].user@ != s2[j].user@ by {
        if j < s.len() {
            assert(s[i].user@ != s[j].user@);
        } else {
            assert(s[i].user@ != e.user@);
        }
    }
    let m1 = native_map_of(s2);
    let m2 = native_map_of(s).insert(e.user@, native_info(e));
    assert forall|u: Seq<u8>| m1.dom().contains(u) implies m2.dom().contains(u) && m1[u]
        == m2[u] by {
        let i = choose|i: int| 0 <= i < s2.len() && s2[i].user@ == u;
        if u == e.user@ {
            lemma_native_lookup(s2, s.len() as int);
        } else {
            assert(i != s.len());
            assert(0 <= i < s.len() && s[i].user@ == u);
            lemma_native_lookup(s2, i);
            lemma_native_lookup(s, i);
        }
    }
    assert forall|u: Seq<u8>| m2.dom().contains(u) implies m1.dom().contains(u) by {
        if u == e.user@ {
            assert(s2[s.len() as int].user@ == u);
        } else {
            let i = choose|i: int| 0 <= i < s.len() && s[i].user@ == u;
            assert(0 <= i < s2.len() && s2[i].user@ == u);
        }
    }
    assert(m1 =~= m2);
}

proof fn lemma_token_push(s: Seq<TokenEntry>, e: TokenEntry)
    requires
        unique_token(s),
        forall|i: int| 0 <= i < s.len() ==> s[i].user@ != e.user@,
    ensures
        unique_token(s.push(e)),
        token_map_of(s.push(e)) == token_map_of(s).insert(e.user@, token_info(e)),
{
    let s2 = s.push(e);
    assert forall|i: int, j: int| 0 <= i < j < s2.len() implies s2[i].user@ != s2[j].user@ by {
        if j < s.len() {
            assert(s[i].user@ != s[j].user@);
        } else {
            assert(s[i].user@ != e.user@);
        }
    }
    let m1 = token_map_of(s2);
    let m2 = token_map_of(s).insert(e.user@, token_info(e));
    assert forall|u: Seq<u8>| m1.dom().contains(u) implies m2.dom().contains(u) && m1[u]
        == m2[u] by {
        let i = choose|i: int| 0 <= i < s2.len() && s2[i].user@ == u;
        if u == e.user@ {
            lemma_token_lookup(s2, s.len() as int);
        } else {
            assert(i != s.len());
            assert(0 <= i < s.len() && s[i].user@ == u);
            lemma_token_lookup(s2, i);
            lemma_token_lookup(s, i);
        }
    }
    assert forall|u: Seq<u8>| m2.dom().contains(u) implies m1.dom().contains(u) by {
        if u == e.user@ {
            assert(s2[s.len() as int].user@ == u);
        } else {
            let i = choose|i: int| 0 <= i < s.len() && s[i].user@ == u;
            assert(0 <= i < s2.len() && s2[i].user@ == u);
        }
    }
    assert(m1 =~= m2);
}

proof fn lemma_native_absent(s: Seq<NativeEntry>, u: Seq<u8>)
    requires
        forall|i: int| 0 <= i < s.len() ==> s[i].user@ != u,
    ensures
        !native_map_of(s).dom().contains(u),
{
}

proof fn lemma_token_absent(s: Seq<TokenEntry>, u: Seq<u8>)
    requires
        forall|i: int| 0 <= i < s.len() ==> s[i].user@ != u,
    ensures
        !token_map_of(s).dom().contains(u),
{
}

} // verus!
