use crate::address::{
    balance_address, balance_seed_list, balance_seeds, collect_seeds, is_derived, ordered_seeds,
    same_key, user_address, user_seed_list, user_seeds, verify, Pubkey, BALANCE_SEED,
    MAX_SEED_LEN, USER_SEED,
};
use crate::error::LedgerError;
use crate::instruction::{Instruction, InstructionView};
use crate::records::{BalanceAccount, BalanceAccountView, UserAccount, UserAccountView};
use crate::store::{overlay, record_at, Store};
use vstd::prelude::*;
use vstd::string::*;
use vstd::utf8::*;

verus! {

/// A record that a call names: its address, and whether the holder of that
/// address signed the call.
#[derive(Clone, Copy, Debug, PartialEq, Eq)]
pub struct AccountRef {
    pub key: Pubkey,
    pub is_signer: bool,
}

/// The storage that a call took for a new record. The host provides it at
/// `target`, paid for by `funder` at the rate the host asks for `size` bytes,
/// and signs for the target with `seeds` and `bump`.
#[derive(Clone, Debug, PartialEq, Eq)]
pub struct Allocation {
    pub funder: Pubkey,
    pub target: Pubkey,
    pub size: u64,
    pub seeds: Vec<Vec<u8>>,
    pub bump: u8,
}

/// What an `Allocation` holds, as mathematical values.
pub struct AllocationView {
    pub funder: Seq<u8>,
    pub target: Seq<u8>,
    pub size: u64,
    pub seeds: Seq<Seq<u8>>,
    pub bump: u8,
}

impl View for Allocation {
    type V = AllocationView;

    open spec fn view(&self) -> AllocationView {
        AllocationView {
            funder: self.funder@,
            target: self.target@,
            size: self.size,
            seeds: self.seeds.deep_view(),
            bump: self.bump,
        }
    }
}

/// The view of an allocation that may not have taken place.
pub open spec fn allocation_view(allocation: Option<Allocation>) -> Option<AllocationView> {
    match allocation {
        Some(a) => Some(a@),
        None => None,
    }
}

/// What a call that succeeds leaves behind: the records, and the storage it
/// took for a new one.
pub struct Outcome {
    pub records: Map<Seq<u8>, Seq<u8>>,
    pub allocation: Option<AllocationView>,
}

/// Authorization: the holder of `candidate` authorized the call exactly when
/// it signed. No identities are compared here; the caller holds the address
/// against the seeds it derives from.
pub fn require_signed(candidate: &AccountRef) -> (out: Result<(), LedgerError>)
    ensures
        out == if candidate.is_signer {
            Ok::<(), LedgerError>(())
        } else {
            Err::<(), LedgerError>(LedgerError::MissingSignature)
        },
{
    if candidate.is_signer {
        Ok(())
    } else {
        Err(LedgerError::MissingSignature)
    }
}

/// Keeps `bytes` at `target`: in storage taken for them where no record
/// stands there, over the record otherwise.
fn place(store: &mut Store, target: &Pubkey, bytes: &Vec<u8>) -> (out: Result<(), LedgerError>)
    requires
        bytes@.len() > 0,
        old(store)@.contains_key(target@) ==> old(store)@[target@].len() == bytes@.len(),
    ensures
        out is Ok,
        final(store)@ == old(store)@.insert(target@, bytes@),
{
    if store.get(target).is_none() {
        match store.create_record(target, bytes.len()) {
            Ok(_) => {},
            Err(e) => return Err(e),
        }
    }
    let ghost before = store@;
    match store.write(target, bytes.as_slice()) {
        Ok(_) => {},
        Err(e) => return Err(e),
    }
    proof {
        let record = record_at(before, target@);
        assert(record.len() == bytes@.len());
        assert(overlay(record, bytes@) =~= bytes@);
        assert(store@ =~= old(store)@.insert(target@, bytes@));
    }
    Ok(())
}

/// What registering `name` for the signer gives, on `records`.
///
/// The call names the signer, the identity record and the host's allocator,
/// in this order. It is rejected where fewer are named, where the signer did
/// not sign, where the identity record is not at the address derived for the
/// signer, where a record stands there already, and where the name has no
/// byte form. Otherwise the record is stored in storage taken for it.
pub open spec fn signup_spec(
    program_id: Seq<u8>,
    accounts: Seq<AccountRef>,
    name: Seq<char>,
    records: Map<Seq<u8>, Seq<u8>>,
) -> Result<Outcome, LedgerError> {
    if accounts.len() < 3 {
        Err(LedgerError::NotEnoughAccountKeys)
    } else if !accounts[0].is_signer {
        Err(LedgerError::MissingSignature)
    } else {
        let signer = accounts[0].key@;
        let target = accounts[1].key@;
        let record = UserAccountView { signer, name };
        match user_address(program_id, signer) {
            Some((address, bump)) if address == target => if records.contains_key(target) {
                Err(LedgerError::AlreadyExists)
            } else if !record.encodable() {
                Err(LedgerError::DecodeError)
            } else {
                Ok(
                    Outcome {
                        records: records.insert(target, record.encoding()),
                        allocation: Some(
                            AllocationView {
                                funder: signer,
                                target,
                                size: record.encoding().len() as u64,
                                seeds: ordered_seeds(USER_SEED@, user_seeds(signer)),
                                bump,
                            },
                        ),
                    },
                )
            },
            _ => Err(LedgerError::AddressMismatch),
        }
    }
}

/// Registers the signer under `name`: stores an identity record at the
/// address derived for the signer, in storage taken for it.
///
/// A call that is rejected leaves the store as it was.
pub fn signup(program_id: &Pubkey, accounts: &[AccountRef], name: String, store: &mut Store) -> (out:
    Result<Allocation, LedgerError>)
    ensures
        match signup_spec(program_id@, accounts@, name@, old(store)@) {
            Ok(outcome) => out matches Ok(allocation) && outcome.allocation == Some(allocation@)
                && final(store)@ == outcome.records,
            Err(e) => out matches Err(rejected) && rejected == e && final(store)@ == old(store)@,
        },
{
    if accounts.len() < 3 {
        return Err(LedgerError::NotEnoughAccountKeys);
    }
    let signer = &accounts[0];
    let user_account = &accounts[1];
    match require_signed(signer) {
        Ok(_) => {},
        Err(e) => return Err(e),
    }
    let seeds = user_seed_list(&signer.key);
    let bump = match verify(&user_account.key, USER_SEED.as_slice(), &seeds, program_id) {
        Ok(bump) => bump,
        Err(e) => return Err(e),
    };
    if store.get(&user_account.key).is_some() {
        return Err(LedgerError::AlreadyExists);
    }
    let user_data = UserAccount { signer: signer.key, name };
    let bytes = match user_data.try_to_vec() {
        Ok(bytes) => bytes,
        Err(e) => return Err(e),
    };
    let allocation = Allocation {
        funder: signer.key,
        target: user_account.key,
        size: bytes.len() as u64,
        seeds: collect_seeds(USER_SEED.as_slice(), &seeds),
        bump,
    };
    match place(store, &user_account.key, &bytes) {
        Ok(_) => {},
        Err(e) => return Err(e),
    }
    Ok(allocation)
}

/// The bytes of a balance record after `amount` came in.
///
/// Where no record stands (`existing` is empty) the record is new and holds
/// `amount` for `owner` and `symbol`. Otherwise `existing` must spell a
/// balance record, and the sum of what it holds and `amount` must be in the
/// range of an unsigned 64-bit amount; owner and symbol stay as they are.
pub open spec fn credited_bytes(
    existing: Seq<u8>,
    owner: Seq<u8>,
    symbol: Seq<char>,
    amount: u64,
) -> Result<Seq<u8>, LedgerError> {
    if existing.len() == 0 {
        let record = BalanceAccountView { owner, symbol, amount };
        if record.encodable() {
            Ok(record.encoding())
        } else {
            Err(LedgerError::DecodeError)
        }
    } else {
        match BalanceAccountView::parse(existing) {
            None => Err(LedgerError::DecodeError),
            Some(record) => if record.amount + amount > u64::MAX {
                Err(LedgerError::Overflow)
            } else {
                Ok(record.with_amount((record.amount + amount) as u64).encoding())
            },
        }
    }
}

/// The bytes of a balance record after `amount` went out: `existing` must
/// spell a balance record that holds at least `amount`.
pub open spec fn debited_bytes(existing: Seq<u8>, amount: u64) -> Result<Seq<u8>, LedgerError> {
    match BalanceAccountView::parse(existing) {
        None => Err(LedgerError::DecodeError),
        Some(record) => if record.amount < amount {
            Err(LedgerError::InsufficientFunds)
        } else {
            Ok(record.with_amount((record.amount - amount) as u64).encoding())
        },
    }
}

/// A record that was credited holds bytes, and as many as before where it
/// stood already: an update never outgrows the storage taken at creation.
pub proof fn credited_keeps_size(existing: Seq<u8>, owner: Seq<u8>, symbol: Seq<char>, amount: u64)
    ensures
        credited_bytes(existing, owner, symbol, amount) matches Ok(bytes) ==> bytes.len() > 0 && (
        existing.len() > 0 ==> bytes.len() == existing.len()),
{
    if existing.len() > 0 {
        if let Some(record) = BalanceAccountView::parse(existing) {
            BalanceAccountView::parse_is_canonical(existing);
            record.amount_keeps_length((record.amount + amount) as u64);
        }
    }
}

/// A record that was debited holds as many bytes as before.
pub proof fn debited_keeps_size(existing: Seq<u8>, amount: u64)
    ensures
        debited_bytes(existing, amount) matches Ok(bytes) ==> bytes.len() > 0 && bytes.len()
            == existing.len(),
{
    if let Some(record) = BalanceAccountView::parse(existing) {
        BalanceAccountView::parse_is_canonical(existing);
        record.amount_keeps_length((record.amount - amount) as u64);
    }
}

/// Computes the bytes of a balance record after `amount` came in; `existing`
/// is empty where no record stands yet.
pub fn credit_record(existing: &[u8], owner: &Pubkey, symbol: &str, amount: u64) -> (out: Result<
    Vec<u8>,
    LedgerError,
>)
    ensures
        match credited_bytes(existing@, owner@, symbol@, amount) {
            Ok(bytes) => out matches Ok(credited) && credited@ == bytes,
            Err(e) => out matches Err(rejected) && rejected == e,
        },
{
    if existing.len() == 0 {
        let balance_data = BalanceAccount { owner: *owner, symbol: symbol.to_owned(), amount };
        balance_data.try_to_vec()
    } else {
        let mut balance_data = match BalanceAccount::try_from_slice(existing) {
            Ok(record) => record,
            Err(e) => return Err(e),
        };
        balance_data.amount = match balance_data.amount.checked_add(amount) {
            Some(sum) => sum,
            None => return Err(LedgerError::Overflow),
        };
        proof {
            BalanceAccountView::parse_is_canonical(existing@);
        }
        balance_data.try_to_vec()
    }
}

/// Computes the bytes of a balance record after `amount` went out.
pub fn debit_record(existing: &[u8], amount: u64) -> (out: Result<Vec<u8>, LedgerError>)
    ensures
        match debited_bytes(existing@, amount) {
            Ok(bytes) => out matches Ok(debited) && debited@ == bytes,
            Err(e) => out matches Err(rejected) && rejected == e,
        },
{
    let mut sender_data = match BalanceAccount::try_from_slice(existing) {
        Ok(record) => record,
        Err(e) => return Err(e),
    };
    if sender_data.amount < amount {
        return Err(LedgerError::InsufficientFunds);
    }
    sender_data.amount = match sender_data.amount.checked_sub(amount) {
        Some(difference) => difference,
        None => return Err(LedgerError::InsufficientFunds),
    };
    proof {
        BalanceAccountView::parse_is_canonical(existing@);
    }
    sender_data.try_to_vec()
}

/// Why `signer` may not be credited, if it may not: no record stands at
/// `address`, the record there is no identity record, or it registers another
/// identity.
pub open spec fn identity_fault(
    records: Map<Seq<u8>, Seq<u8>>,
    address: Seq<u8>,
    signer: Seq<u8>,
) -> Option<LedgerError> {
    if !records.contains_key(address) {
        Some(LedgerError::UnknownIdentity)
    } else {
        match UserAccountView::parse(records[address]) {
            None => Some(LedgerError::DecodeError),
            Some(user) => if user.signer == signer {
                None
            } else {
                Some(LedgerError::UnknownIdentity)
            },
        }
    }
}

/// Checks that the record at `address` registers `signer`.
pub fn require_identity(store: &Store, address: &Pubkey, signer: &Pubkey) -> (out: Result<
    (),
    LedgerError,
>)
    ensures
        match identity_fault(store@, address@, signer@) {
            None => out is Ok,
            Some(e) => out matches Err(rejected) && rejected == e,
        },
{
    match store.get(address) {
        None => Err(LedgerError::UnknownIdentity),
        Some(data) => {
            let user_data = match UserAccount::try_from_slice(data.as_slice()) {
                Ok(record) => record,
                Err(e) => return Err(e),
            };
            if same_key(&user_data.signer, signer) {
                Ok(())
            } else {
                Err(LedgerError::UnknownIdentity)
            }
        },
    }
}

/// The storage taken for a balance record of `size` bytes at `target`.
pub open spec fn balance_allocation(
    funder: Seq<u8>,
    target: Seq<u8>,
    size: nat,
    owner: Seq<u8>,
    symbol: Seq<char>,
    bump: u8,
) -> AllocationView {
    AllocationView {
        funder,
        target,
        size: size as u64,
        seeds: ordered_seeds(BALANCE_SEED@, balance_seeds(owner, symbol)),
        bump,
    }
}

/// What crediting the signer with `amount` of `symbol` gives, on `records`.
///
/// The call names the signer, the signer's identity record, the balance
/// record and the host's allocator, in this order. It is rejected where fewer
/// are named, where the signer did not sign, where the identity record or the
/// balance record is not at the address derived for it, where the identity
/// record does not register the signer, and where the balance cannot take the
/// amount. Otherwise the balance record is created with `amount`, or holds
/// `amount` more than before.
pub open spec fn onramp_spec(
    program_id: Seq<u8>,
    accounts: Seq<AccountRef>,
    symbol: Seq<char>,
    amount: u64,
    records: Map<Seq<u8>, Seq<u8>>,
) -> Result<Outcome, LedgerError> {
    if accounts.len() < 4 {
        Err(LedgerError::NotEnoughAccountKeys)
    } else if !accounts[0].is_signer {
        Err(LedgerError::MissingSignature)
    } else {
        let signer = accounts[0].key@;
        let identity = accounts[1].key@;
        let target = accounts[2].key@;
        let existing = record_at(records, target);
        if !is_derived(identity, USER_SEED@, user_seeds(signer), program_id) {
            Err(LedgerError::AddressMismatch)
        } else {
            match balance_address(program_id, signer, symbol) {
                Some((address, bump)) if address == target => match identity_fault(
                    records,
                    identity,
                    signer,
                ) {
                    Some(e) => Err(e),
                    None => match credited_bytes(existing, signer, symbol, amount) {
                        Err(e) => Err(e),
                        Ok(bytes) => Ok(
                            Outcome {
                                records: records.insert(target, bytes),
                                allocation: if existing.len() == 0 {
                                    Some(
                                        balance_allocation(
                                            signer,
                                            target,
                                            bytes.len(),
                                            signer,
                                            symbol,
                                            bump,
                                        ),
                                    )
                                } else {
                                    None
                                },
                            },
                        ),
                    },
                },
                _ => Err(LedgerError::AddressMismatch),
            }
        }
    }
}

/// Credits the signer with `amount` of `symbol`: creates the balance record
/// with that amount, or adds the amount to the record that stands.
///
/// A call that is rejected leaves the store as it was. A symbol whose UTF-8
/// form is longer than `MAX_SEED_LEN` has no balance address, so that every
/// call with it is rejected.
pub fn onramp(
    program_id: &Pubkey,
    accounts: &[AccountRef],
    symbol: String,
    amount: u64,
    store: &mut Store,
) -> (out: Result<Option<Allocation>, LedgerError>)
    ensures
        match onramp_spec(program_id@, accounts@, symbol@, amount, old(store)@) {
            Ok(outcome) => out matches Ok(allocation) && outcome.allocation == allocation_view(
                allocation,
            ) && final(store)@ == outcome.records,
            Err(e) => out matches Err(rejected) && rejected == e && final(store)@ == old(store)@,
        },
        encode_utf8(symbol@).len() > MAX_SEED_LEN ==> out is Err,
{
    if accounts.len() < 4 {
        return Err(LedgerError::NotEnoughAccountKeys);
    }
    let signer = &accounts[0];
    let user_account = &accounts[1];
    let balance_account = &accounts[2];
    match require_signed(signer) {
        Ok(_) => {},
        Err(e) => return Err(e),
    }
    let user_seeds = user_seed_list(&signer.key);
    match verify(&user_account.key, USER_SEED.as_slice(), &user_seeds, program_id) {
        Ok(_) => {},
        Err(e) => return Err(e),
    }
    let balance_seeds = balance_seed_list(&signer.key, symbol.as_str());
    let balance_bump = match verify(
        &balance_account.key,
        BALANCE_SEED.as_slice(),
        &balance_seeds,
        program_id,
    ) {
        Ok(bump) => bump,
        Err(e) => return Err(e),
    };
    match require_identity(store, &user_account.key, &signer.key) {
        Ok(_) => {},
        Err(e) => return Err(e),
    }
    let absent: Vec<u8> = Vec::new();
    let (existing, created) = match store.get(&balance_account.key) {
        Some(data) => (data, false),
        None => (&absent, true),
    };
    let bytes = match credit_record(existing.as_slice(), &signer.key, symbol.as_str(), amount) {
        Ok(bytes) => bytes,
        Err(e) => return Err(e),
    };
    proof {
        credited_keeps_size(existing@, signer.key@, symbol@, amount);
    }
    let allocation = if created {
        Some(
            Allocation {
                funder: signer.key,
                target: balance_account.key,
                size: bytes.len() as u64,
                seeds: collect_seeds(BALANCE_SEED.as_slice(), &balance_seeds),
                bump: balance_bump,
            },
        )
    } else {
        None
    };
    match place(store, &balance_account.key, &bytes) {
        Ok(_) => {},
        Err(e) => return Err(e),
    }
    Ok(allocation)
}

/// What moving `amount` of `symbol` from the signer to `recipient` gives, on
/// `records`.
///
/// The call names the signer, the sender's balance record, the recipient's
/// balance record and the host's allocator, in this order. It is rejected
/// where fewer are named, where the signer did not sign, where either balance
/// record is not at the address derived for it, where the sender's record
/// does not hold `amount`, and where the recipient's cannot take it. Otherwise
/// the sender's record holds `amount` less than before, and after that the
/// recipient's record is created with `amount`, or holds `amount` more.
pub open spec fn transfer_spec(
    program_id: Seq<u8>,
    accounts: Seq<AccountRef>,
    symbol: Seq<char>,
    amount: u64,
    recipient: Seq<u8>,
    records: Map<Seq<u8>, Seq<u8>>,
) -> Result<Outcome, LedgerError> {
    if accounts.len() < 4 {
        Err(LedgerError::NotEnoughAccountKeys)
    } else if !accounts[0].is_signer {
        Err(LedgerError::MissingSignature)
    } else {
        let signer = accounts[0].key@;
        let source = accounts[1].key@;
        let target = accounts[2].key@;
        if !is_derived(source, BALANCE_SEED@, balance_seeds(signer, symbol), program_id) {
            Err(LedgerError::AddressMismatch)
        } else {
            match balance_address(program_id, recipient, symbol) {
                Some((address, bump)) if address == target => match debited_bytes(
                    record_at(records, source),
                    amount,
                ) {
                    Err(e) => Err(e),
                    Ok(sent) => {
                        let debited = records.insert(source, sent);
                        let existing = record_at(debited, target);
                        match credited_bytes(existing, recipient, symbol, amount) {
                            Err(e) => Err(e),
                            Ok(received) => Ok(
                                Outcome {
                                    records: debited.insert(target, received),
                                    allocation: if existing.len() == 0 {
                                        Some(
                                            balance_allocation(
                                                signer,
                                                target,
                                                received.len(),
                                                recipient,
                                                symbol,
                                                bump,
                                            ),
                                        )
                                    } else {
                                        None
                                    },
                                },
                            ),
                        }
                    },
                },
                _ => Err(LedgerError::AddressMismatch),
            }
        }
    }
}

/// Moves `amount` of `symbol` from the signer to `recipient`: takes it from
/// the sender's balance record, then creates the recipient's record with it,
/// or adds it to the record that stands.
///
/// Both records are computed before either is written: a call that is
/// rejected leaves the store as it was. A symbol whose UTF-8 form is longer
/// than `MAX_SEED_LEN` has no balance address, so that every call with it is
/// rejected.
pub fn transfer(
    program_id: &Pubkey,
    accounts: &[AccountRef],
    symbol: String,
    amount: u64,
    recipient: Pubkey,
    store: &mut Store,
) -> (out: Result<Option<Allocation>, LedgerError>)
    ensures
        match transfer_spec(program_id@, accounts@, symbol@, amount, recipient@, old(store)@) {
            Ok(outcome) => out matches Ok(allocation) && outcome.allocation == allocation_view(
                allocation,
            ) && final(store)@ == outcome.records,
            Err(e) => out matches Err(rejected) && rejected == e && final(store)@ == old(store)@,
        },
        encode_utf8(symbol@).len() > MAX_SEED_LEN ==> out is Err,
{
    if accounts.len() < 4 {
        return Err(LedgerError::NotEnoughAccountKeys);
    }
    let signer = &accounts[0];
    let sender_balance = &accounts[1];
    let recipient_balance = &accounts[2];
    match require_signed(signer) {
        Ok(_) => {},
        Err(e) => return Err(e),
    }
    let sender_seeds = balance_seed_list(&signer.key, symbol.as_str());
    match verify(&sender_balance.key, BALANCE_SEED.as_slice(), &sender_seeds, program_id) {
        Ok(_) => {},
        Err(e) => return Err(e),
    }
    let recipient_seeds = balance_seed_list(&recipient, symbol.as_str());
    let recipient_bump = match verify(
        &recipient_balance.key,
        BALANCE_SEED.as_slice(),
        &recipient_seeds,
        program_id,
    ) {
        Ok(bump) => bump,
        Err(e) => return Err(e),
    };
    let absent: Vec<u8> = Vec::new();
    let sender_data = match store.get(&sender_balance.key) {
        Some(data) => data,
        None => &absent,
    };
    let sent = match debit_record(sender_data.as_slice(), amount) {
        Ok(bytes) => bytes,
        Err(e) => return Err(e),
    };
    proof {
        debited_keeps_size(sender_data@, amount);
    }
    let (existing, created) = if same_key(&sender_balance.key, &recipient_balance.key) {
        (&sent, false)
    } else {
        match store.get(&recipient_balance.key) {
            Some(data) => (data, false),
            None => (&absent, true),
        }
    };
    let received = match credit_record(existing.as_slice(), &recipient, symbol.as_str(), amount) {
        Ok(bytes) => bytes,
        Err(e) => return Err(e),
    };
    proof {
        credited_keeps_size(existing@, recipient@, symbol@, amount);
    }
    let allocation = if created {
        Some(
            Allocation {
                funder: signer.key,
                target: recipient_balance.key,
                size: received.len() as u64,
                seeds: collect_seeds(BALANCE_SEED.as_slice(), &recipient_seeds),
                bump: recipient_bump,
            },
        )
    } else {
        None
    };
    match place(store, &sender_balance.key, &sent) {
        Ok(_) => {},
        Err(e) => return Err(e),
    }
    match place(store, &recipient_balance.key, &received) {
        Ok(_) => {},
        Err(e) => return Err(e),
    }
    Ok(allocation)
}

/// What the call that `instruction_data` spell gives, on `records`: bytes
/// that spell no instruction are rejected before any record is read.
pub open spec fn process_instruction_spec(
    program_id: Seq<u8>,
    accounts: Seq<AccountRef>,
    instruction_data: Seq<u8>,
    records: Map<Seq<u8>, Seq<u8>>,
) -> Result<Outcome, LedgerError> {
    match InstructionView::parse(instruction_data) {
        None => Err(LedgerError::DecodeError),
        Some(InstructionView::Signup { name }) => signup_spec(program_id, accounts, name, records),
        Some(InstructionView::Onramp { symbol, amount }) => onramp_spec(
            program_id,
            accounts,
            symbol,
            amount,
            records,
        ),
        Some(InstructionView::Transfer { symbol, amount, recipient }) => transfer_spec(
            program_id,
            accounts,
            symbol,
            amount,
            recipient,
            records,
        ),
    }
}

/// The entry point of a call: decodes the instruction and carries it out on
/// the records that the call names.
///
/// A call that is rejected leaves the store as it was.
pub fn process_instruction(
    program_id: &Pubkey,
    accounts: &[AccountRef],
    instruction_data: &[u8],
    store: &mut Store,
) -> (out: Result<Option<Allocation>, LedgerError>)
    ensures
        match process_instruction_spec(program_id@, accounts@, instruction_data@, old(store)@) {
            Ok(outcome) => out matches Ok(allocation) && outcome.allocation == allocation_view(
                allocation,
            ) && final(store)@ == outcome.records,
            Err(e) => out matches Err(rejected) && rejected == e && final(store)@ == old(store)@,
        },
{
    let ix = match Instruction::try_from_slice(instruction_data) {
        Ok(ix) => ix,
        Err(e) => return Err(e),
    };
    match ix {
        Instruction::Signup { name } => match signup(program_id, accounts, name, store) {
            Ok(allocation) => Ok(Some(allocation)),
            Err(e) => Err(e),
        },
        Instruction::Onramp { symbol, amount } => onramp(
            program_id,
            accounts,
            symbol,
            amount,
            store,
        ),
        Instruction::Transfer { symbol, amount, recipient } => transfer(
            program_id,
            accounts,
            symbol,
            amount,
            recipient,
            store,
        ),
    }
}

} // verus!
