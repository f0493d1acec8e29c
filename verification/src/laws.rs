use crate::address::{balance_seeds, is_derived, user_seeds, BALANCE_SEED, USER_SEED};
use crate::error::LedgerError;
use crate::ledger::{
    credited_bytes, debited_bytes, identity_fault, onramp_spec, signup_spec, transfer_spec,
    AccountRef,
};
use crate::records::{BalanceAccountView, UserAccountView};
use crate::store::record_at;
use vstd::prelude::*;

verus! {

/// Whether a call is signed and names enough records for a credit or a
/// transfer.
pub open spec fn signed_by_first(accounts: Seq<AccountRef>) -> bool {
    accounts.len() >= 4 && accounts[0].is_signer
}

/// Whether a credit passes every check that comes before the balance is read:
/// it is signed, the identity record and the balance record are at their
/// derived addresses, and the identity record registers the signer.
pub open spec fn onramp_admitted(
    program_id: Seq<u8>,
    accounts: Seq<AccountRef>,
    symbol: Seq<char>,
    records: Map<Seq<u8>, Seq<u8>>,
) -> bool {
    &&& signed_by_first(accounts)
    &&& is_derived(accounts[1].key@, USER_SEED@, user_seeds(accounts[0].key@), program_id)
    &&& is_derived(
        accounts[2].key@,
        BALANCE_SEED@,
        balance_seeds(accounts[0].key@, symbol),
        program_id,
    )
    &&& identity_fault(records, accounts[1].key@, accounts[0].key@) is None
}

/// Whether a transfer passes every check that comes before a balance is read:
/// it is signed, and both balance records are at their derived addresses.
pub open spec fn transfer_admitted(
    program_id: Seq<u8>,
    accounts: Seq<AccountRef>,
    symbol: Seq<char>,
    recipient: Seq<u8>,
) -> bool {
    &&& signed_by_first(accounts)
    &&& is_derived(
        accounts[1].key@,
        BALANCE_SEED@,
        balance_seeds(accounts[0].key@, symbol),
        program_id,
    )
    &&& is_derived(accounts[2].key@, BALANCE_SEED@, balance_seeds(recipient, symbol), program_id)
}

/// Adding to a balance whose sum with the amount leaves the range of an
/// unsigned 64-bit amount is rejected with `Overflow`.
pub proof fn credit_overflow_is_rejected(
    existing: Seq<u8>,
    owner: Seq<u8>,
    symbol: Seq<char>,
    amount: u64,
)
    requires
        BalanceAccountView::parse(existing) matches Some(record) && record.amount + amount
            > u64::MAX,
    ensures
        credited_bytes(existing, owner, symbol, amount) == Err::<Seq<u8>, LedgerError>(
            LedgerError::Overflow,
        ),
{
}

/// A credit that would overflow the balance is never carried out, and is
/// rejected with `Overflow` where the call passes the checks before it.
pub proof fn onramp_overflow_is_rejected(
    program_id: Seq<u8>,
    accounts: Seq<AccountRef>,
    symbol: Seq<char>,
    amount: u64,
    records: Map<Seq<u8>, Seq<u8>>,
)
    requires
        BalanceAccountView::parse(record_at(records, accounts[2].key@)) matches Some(record)
            && record.amount + amount > u64::MAX,
    ensures
        onramp_spec(program_id, accounts, symbol, amount, records) is Err,
        onramp_admitted(program_id, accounts, symbol, records) ==> onramp_spec(
            program_id,
            accounts,
            symbol,
            amount,
            records,
        ) == Err::<crate::ledger::Outcome, LedgerError>(LedgerError::Overflow),
{
}

/// A transfer that would overflow the recipient's balance is rejected with
/// `Overflow` where the call passes the checks before it and the sender holds
/// the amount.
pub proof fn transfer_overflow_is_rejected(
    program_id: Seq<u8>,
    accounts: Seq<AccountRef>,
    symbol: Seq<char>,
    amount: u64,
    recipient: Seq<u8>,
    records: Map<Seq<u8>, Seq<u8>>,
)
    requires
        transfer_admitted(program_id, accounts, symbol, recipient),
        accounts[1].key@ != accounts[2].key@,
        debited_bytes(record_at(records, accounts[1].key@), amount) is Ok,
        BalanceAccountView::parse(record_at(records, accounts[2].key@)) matches Some(record)
            && record.amount + amount > u64::MAX,
    ensures
        transfer_spec(program_id, accounts, symbol, amount, recipient, records) == Err::<
            crate::ledger::Outcome,
            LedgerError,
        >(LedgerError::Overflow),
{
}

/// Taking more from a balance than it holds is rejected with
/// `InsufficientFunds`.
pub proof fn debit_beyond_balance_is_rejected(existing: Seq<u8>, amount: u64)
    requires
        BalanceAccountView::parse(existing) matches Some(record) && amount > record.amount,
    ensures
        debited_bytes(existing, amount) == Err::<Seq<u8>, LedgerError>(
            LedgerError::InsufficientFunds,
        ),
{
}

/// A transfer of more than the sender holds is never carried out, and is
/// rejected with `InsufficientFunds` where the call passes the checks before
/// it.
pub proof fn transfer_beyond_balance_is_rejected(
    program_id: Seq<u8>,
    accounts: Seq<AccountRef>,
    symbol: Seq<char>,
    amount: u64,
    recipient: Seq<u8>,
    records: Map<Seq<u8>, Seq<u8>>,
)
    requires
        BalanceAccountView::parse(record_at(records, accounts[1].key@)) matches Some(record)
            && amount > record.amount,
    ensures
        transfer_spec(program_id, accounts, symbol, amount, recipient, records) is Err,
        transfer_admitted(program_id, accounts, symbol, recipient) ==> transfer_spec(
            program_id,
            accounts,
            symbol,
            amount,
            recipient,
            records,
        ) == Err::<crate::ledger::Outcome, LedgerError>(LedgerError::InsufficientFunds),
{
}

/// A registration that names another address than the one derived for the
/// signer is rejected with `AddressMismatch`, whatever stands at the address
/// it names.
pub proof fn signup_at_wrong_address_is_rejected(
    program_id: Seq<u8>,
    accounts: Seq<AccountRef>,
    name: Seq<char>,
    records: Map<Seq<u8>, Seq<u8>>,
)
    requires
        accounts.len() >= 3,
        accounts[0].is_signer,
        !is_derived(accounts[1].key@, USER_SEED@, user_seeds(accounts[0].key@), program_id),
    ensures
        signup_spec(program_id, accounts, name, records) == Err::<
            crate::ledger::Outcome,
            LedgerError,
        >(LedgerError::AddressMismatch),
{
}

/// A credit that names another identity record or another balance record
/// than the ones derived for the signer is rejected with `AddressMismatch`,
/// whatever stands at the addresses it names.
pub proof fn onramp_at_wrong_address_is_rejected(
    program_id: Seq<u8>,
    accounts: Seq<AccountRef>,
    symbol: Seq<char>,
    amount: u64,
    records: Map<Seq<u8>, Seq<u8>>,
)
    requires
        signed_by_first(accounts),
        !is_derived(accounts[1].key@, USER_SEED@, user_seeds(accounts[0].key@), program_id)
            || !is_derived(
            accounts[2].key@,
            BALANCE_SEED@,
            balance_seeds(accounts[0].key@, symbol),
            program_id,
        ),
    ensures
        onramp_spec(program_id, accounts, symbol, amount, records) == Err::<
            crate::ledger::Outcome,
            LedgerError,
        >(LedgerError::AddressMismatch),
{
}

/// A transfer that names another balance record than the one derived for the
/// sender, or for the recipient, is rejected with `AddressMismatch`, whatever
/// stands at the addresses it names.
pub proof fn transfer_at_wrong_address_is_rejected(
    program_id: Seq<u8>,
    accounts: Seq<AccountRef>,
    symbol: Seq<char>,
    amount: u64,
    recipient: Seq<u8>,
    records: Map<Seq<u8>, Seq<u8>>,
)
    requires
        signed_by_first(accounts),
        !transfer_admitted(program_id, accounts, symbol, recipient),
    ensures
        transfer_spec(program_id, accounts, symbol, amount, recipient, records) == Err::<
            crate::ledger::Outcome,
            LedgerError,
        >(LedgerError::AddressMismatch),
{
}

/// A registration that is carried out stores a record that spells the signer
/// and the name, at the address derived for the signer, and changes no other
/// record.
pub proof fn signup_registers_signer(
    program_id: Seq<u8>,
    accounts: Seq<AccountRef>,
    name: Seq<char>,
    records: Map<Seq<u8>, Seq<u8>>,
)
    requires
        signup_spec(program_id, accounts, name, records) is Ok,
    ensures
        signup_spec(program_id, accounts, name, records) matches Ok(outcome) && is_derived(
            accounts[1].key@,
            USER_SEED@,
            user_seeds(accounts[0].key@),
            program_id,
        ) && UserAccountView::parse(record_at(outcome.records, accounts[1].key@)) == Some(
            UserAccountView { signer: accounts[0].key@, name },
        ) && identity_fault(outcome.records, accounts[1].key@, accounts[0].key@) is None
            && forall|other: Seq<u8>|
            other != accounts[1].key@ ==> record_at(outcome.records, other) == record_at(
                records,
                other,
            ),
{
    let record = UserAccountView { signer: accounts[0].key@, name };
    record.round_trip();
}

/// A first credit creates a record that spells the signer, the symbol and
/// the amount; a later one adds the amount and keeps owner and symbol. No
/// other record changes.
pub proof fn onramp_adds_amount(
    program_id: Seq<u8>,
    accounts: Seq<AccountRef>,
    symbol: Seq<char>,
    amount: u64,
    records: Map<Seq<u8>, Seq<u8>>,
)
    requires
        onramp_spec(program_id, accounts, symbol, amount, records) is Ok,
    ensures
        onramp_spec(program_id, accounts, symbol, amount, records) matches Ok(outcome) && ({
            let target = accounts[2].key@;
            let before = record_at(records, target);
            let after = BalanceAccountView::parse(record_at(outcome.records, target));
            &&& before.len() == 0 ==> after == Some(
                BalanceAccountView { owner: accounts[0].key@, symbol, amount },
            )
            &&& before.len() > 0 ==> (BalanceAccountView::parse(before) matches Some(held) && after
                == Some(held.with_amount((held.amount + amount) as u64)))
            &&& (outcome.allocation is Some <==> before.len() == 0)
            &&& forall|other: Seq<u8>|
                other != target ==> record_at(outcome.records, other) == record_at(records, other)
        }),
{
    let target = accounts[2].key@;
    let before = record_at(records, target);
    if before.len() == 0 {
        let record = BalanceAccountView { owner: accounts[0].key@, symbol, amount };
        record.round_trip();
    } else {
        let held = BalanceAccountView::parse(before).unwrap();
        BalanceAccountView::parse_is_canonical(before);
        held.with_amount((held.amount + amount) as u64).round_trip();
    }
}

/// A transfer between two different records takes the amount from the one and
/// gives it to the other: what the two hold together stays the same, where
/// the recipient's record stood before, and is what the sender held, where it
/// is created. No other record changes.
pub proof fn transfer_moves_amount(
    program_id: Seq<u8>,
    accounts: Seq<AccountRef>,
    symbol: Seq<char>,
    amount: u64,
    recipient: Seq<u8>,
    records: Map<Seq<u8>, Seq<u8>>,
)
    requires
        accounts[1].key@ != accounts[2].key@,
        transfer_spec(program_id, accounts, symbol, amount, recipient, records) is Ok,
    ensures
        transfer_spec(program_id, accounts, symbol, amount, recipient, records) matches Ok(
            outcome,
        ) && ({
            let source = accounts[1].key@;
            let target = accounts[2].key@;
            let before = record_at(records, target);
            let sent = BalanceAccountView::parse(record_at(outcome.records, source));
            let received = BalanceAccountView::parse(record_at(outcome.records, target));
            &&& BalanceAccountView::parse(record_at(records, source)) matches Some(sender)
            &&& sender.amount >= amount
            &&& sent == Some(sender.with_amount((sender.amount - amount) as u64))
            &&& before.len() == 0 ==> received == Some(
                BalanceAccountView { owner: recipient, symbol, amount },
            )
            &&& before.len() > 0 ==> (BalanceAccountView::parse(before) matches Some(held)
                && received == Some(held.with_amount((held.amount + amount) as u64)))
            &&& (outcome.allocation is Some <==> before.len() == 0)
            &&& forall|other: Seq<u8>|
                other != source && other != target ==> record_at(outcome.records, other)
                    == record_at(records, other)
        }),
{
    let source = accounts[1].key@;
    let target = accounts[2].key@;
    let sender = BalanceAccountView::parse(record_at(records, source)).unwrap();
    BalanceAccountView::parse_is_canonical(record_at(records, source));
    sender.with_amount((sender.amount - amount) as u64).round_trip();
    let before = record_at(records, target);
    if before.len() == 0 {
        let record = BalanceAccountView { owner: recipient, symbol, amount };
        record.round_trip();
    } else {
        let held = BalanceAccountView::parse(before).unwrap();
        BalanceAccountView::parse_is_canonical(before);
        held.with_amount((held.amount + amount) as u64).round_trip();
    }
}

/// A transfer to oneself, where sender and recipient name the same record,
/// leaves every record as it was.
pub proof fn transfer_to_self_changes_nothing(
    program_id: Seq<u8>,
    accounts: Seq<AccountRef>,
    symbol: Seq<char>,
    amount: u64,
    recipient: Seq<u8>,
    records: Map<Seq<u8>, Seq<u8>>,
)
    requires
        accounts[1].key@ == accounts[2].key@,
        transfer_spec(program_id, accounts, symbol, amount, recipient, records) is Ok,
    ensures
        transfer_spec(program_id, accounts, symbol, amount, recipient, records) matches Ok(
            outcome,
        ) && outcome.allocation is None && forall|key: Seq<u8>|
            record_at(outcome.records, key) == record_at(records, key),
{
    let source = accounts[1].key@;
    let existing = record_at(records, source);
    let sender = BalanceAccountView::parse(existing).unwrap();
    BalanceAccountView::parse_is_canonical(existing);
    let debited = sender.with_amount((sender.amount - amount) as u64);
    debited.round_trip();
    crate::ledger::debited_keeps_size(existing, amount);
    assert(debited.with_amount((debited.amount + amount) as u64) == sender);
}

} // verus!
