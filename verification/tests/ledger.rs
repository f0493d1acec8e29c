use payment_ledger::address;
use payment_ledger::address::{
    balance_seed_list, user_seed_list, Pubkey, BALANCE_SEED, USER_SEED,
};
use payment_ledger::error::LedgerError;
use payment_ledger::instruction::Instruction;
use payment_ledger::ledger::{
    credit_record, debit_record, onramp, process_instruction, require_identity, require_signed,
    signup, transfer, AccountRef, Allocation,
};
use payment_ledger::records::{BalanceAccount, UserAccount};
use payment_ledger::store::Store;

const PROGRAM: Pubkey = [7u8; 32];
const ALLOCATOR: Pubkey = [0u8; 32];
const A: Pubkey = [1u8; 32];
const B: Pubkey = [2u8; 32];

fn user_address(signer: &Pubkey) -> (Pubkey, u8) {
    address::derive(&USER_SEED, &user_seed_list(signer), &PROGRAM).unwrap()
}

fn balance_address(owner: &Pubkey, symbol: &str) -> (Pubkey, u8) {
    address::derive(&BALANCE_SEED, &balance_seed_list(owner, symbol), &PROGRAM).unwrap()
}

fn signed(key: Pubkey) -> AccountRef {
    AccountRef { key, is_signer: true }
}

fn named(key: Pubkey) -> AccountRef {
    AccountRef { key, is_signer: false }
}

fn signup_accounts(signer: &Pubkey) -> Vec<AccountRef> {
    vec![signed(*signer), named(user_address(signer).0), named(ALLOCATOR)]
}

fn onramp_accounts(signer: &Pubkey, symbol: &str) -> Vec<AccountRef> {
    vec![
        signed(*signer),
        named(user_address(signer).0),
        named(balance_address(signer, symbol).0),
        named(ALLOCATOR),
    ]
}

fn transfer_accounts(signer: &Pubkey, recipient: &Pubkey, symbol: &str) -> Vec<AccountRef> {
    vec![
        signed(*signer),
        named(balance_address(signer, symbol).0),
        named(balance_address(recipient, symbol).0),
        named(ALLOCATOR),
    ]
}

fn balance(store: &Store, owner: &Pubkey, symbol: &str) -> Option<BalanceAccount> {
    store
        .get(&balance_address(owner, symbol).0)
        .map(|bytes| BalanceAccount::try_from_slice(bytes).unwrap())
}

fn snapshot(store: &Store, keys: &[Pubkey]) -> Vec<Option<Vec<u8>>> {
    keys.iter().map(|key| store.get(key).cloned()).collect()
}

fn store_with_balance(owner: &Pubkey, symbol: &str, amount: u64) -> Store {
    let mut store = Store::new();
    signup(&PROGRAM, &signup_accounts(owner), "owner".to_string(), &mut store).unwrap();
    onramp(&PROGRAM, &onramp_accounts(owner, symbol), symbol.to_string(), amount, &mut store)
        .unwrap();
    store
}

#[test]
fn signup_on_empty_store_then_again_fails() {
    let mut store = Store::new();
    let (address, bump) = user_address(&A);
    let allocation = signup(&PROGRAM, &signup_accounts(&A), "alice".to_string(), &mut store);
    assert_eq!(
        allocation,
        Ok(Allocation {
            funder: A,
            target: address,
            size: 41,
            seeds: vec![b"user".to_vec(), A.to_vec()],
            bump,
        })
    );
    let stored = store.get(&address).cloned().unwrap();
    assert_eq!(
        UserAccount::try_from_slice(&stored),
        Ok(UserAccount { signer: A, name: "alice".to_string() })
    );
    let again = signup(&PROGRAM, &signup_accounts(&A), "alice2".to_string(), &mut store);
    assert_eq!(again, Err(LedgerError::AlreadyExists));
    assert_eq!(store.get(&address), Some(&stored));
}

#[test]
fn signup_without_signature_fails() {
    let mut store = Store::new();
    let mut accounts = signup_accounts(&A);
    accounts[0].is_signer = false;
    assert_eq!(
        signup(&PROGRAM, &accounts, "alice".to_string(), &mut store),
        Err(LedgerError::MissingSignature)
    );
    assert_eq!(store.get(&user_address(&A).0), None);
}

#[test]
fn signup_with_too_few_accounts_fails() {
    let mut store = Store::new();
    let accounts = signup_accounts(&A);
    assert_eq!(
        signup(&PROGRAM, &accounts[..2], "alice".to_string(), &mut store),
        Err(LedgerError::NotEnoughAccountKeys)
    );
    assert_eq!(
        signup(&PROGRAM, &[], "alice".to_string(), &mut store),
        Err(LedgerError::NotEnoughAccountKeys)
    );
}

#[test]
fn signup_at_another_address_fails() {
    let mut store = Store::new();
    let accounts = vec![signed(A), named(user_address(&B).0), named(ALLOCATOR)];
    assert_eq!(
        signup(&PROGRAM, &accounts, "alice".to_string(), &mut store),
        Err(LedgerError::AddressMismatch)
    );
    assert_eq!(store.get(&user_address(&B).0), None);
}

#[test]
fn signup_under_another_program_fails() {
    let mut store = Store::new();
    assert_eq!(
        signup(&[8u8; 32], &signup_accounts(&A), "alice".to_string(), &mut store),
        Err(LedgerError::AddressMismatch)
    );
}

#[test]
fn signup_of_two_signers_keeps_both() {
    let mut store = Store::new();
    signup(&PROGRAM, &signup_accounts(&A), "alice".to_string(), &mut store).unwrap();
    signup(&PROGRAM, &signup_accounts(&B), "bob".to_string(), &mut store).unwrap();
    let alice = UserAccount::try_from_slice(store.get(&user_address(&A).0).unwrap());
    let bob = UserAccount::try_from_slice(store.get(&user_address(&B).0).unwrap());
    assert_eq!(alice, Ok(UserAccount { signer: A, name: "alice".to_string() }));
    assert_eq!(bob, Ok(UserAccount { signer: B, name: "bob".to_string() }));
}

#[test]
fn onramp_creates_then_adds() {
    let mut store = Store::new();
    signup(&PROGRAM, &signup_accounts(&A), "alice".to_string(), &mut store).unwrap();
    let (address, bump) = balance_address(&A, "USD");
    let first = onramp(&PROGRAM, &onramp_accounts(&A, "USD"), "USD".to_string(), 100, &mut store);
    assert_eq!(
        first,
        Ok(Some(Allocation {
            funder: A,
            target: address,
            size: 47,
            seeds: vec![b"balance".to_vec(), A.to_vec(), b"USD".to_vec()],
            bump,
        }))
    );
    assert_eq!(
        balance(&store, &A, "USD"),
        Some(BalanceAccount { owner: A, symbol: "USD".to_string(), amount: 100 })
    );
    let second = onramp(&PROGRAM, &onramp_accounts(&A, "USD"), "USD".to_string(), 50, &mut store);
    assert_eq!(second, Ok(None));
    assert_eq!(
        balance(&store, &A, "USD"),
        Some(BalanceAccount { owner: A, symbol: "USD".to_string(), amount: 150 })
    );
    assert_eq!(store.get(&address).unwrap().len(), 47);
}

#[test]
fn onramp_keeps_symbols_apart() {
    let mut store = store_with_balance(&A, "USD", 100);
    onramp(&PROGRAM, &onramp_accounts(&A, "EUR"), "EUR".to_string(), 7, &mut store).unwrap();
    assert_eq!(balance(&store, &A, "USD").unwrap().amount, 100);
    assert_eq!(balance(&store, &A, "EUR").unwrap().amount, 7);
}

#[test]
fn onramp_without_identity_record_fails() {
    let mut store = Store::new();
    assert_eq!(
        onramp(&PROGRAM, &onramp_accounts(&A, "USD"), "USD".to_string(), 100, &mut store),
        Err(LedgerError::UnknownIdentity)
    );
    assert_eq!(balance(&store, &A, "USD"), None);
}

#[test]
fn onramp_with_identity_record_of_another_signer_fails() {
    let mut store = Store::new();
    let identity = user_address(&A).0;
    let other = UserAccount { signer: B, name: "bob".to_string() }.try_to_vec().unwrap();
    store.create_record(&identity, other.len()).unwrap();
    store.write(&identity, &other).unwrap();
    assert_eq!(
        onramp(&PROGRAM, &onramp_accounts(&A, "USD"), "USD".to_string(), 100, &mut store),
        Err(LedgerError::UnknownIdentity)
    );
}

#[test]
fn onramp_with_malformed_identity_record_fails() {
    let mut store = Store::new();
    store.create_record(&user_address(&A).0, 3).unwrap();
    assert_eq!(
        onramp(&PROGRAM, &onramp_accounts(&A, "USD"), "USD".to_string(), 100, &mut store),
        Err(LedgerError::DecodeError)
    );
}

#[test]
fn onramp_without_signature_fails() {
    let mut store = store_with_balance(&A, "USD", 100);
    let mut accounts = onramp_accounts(&A, "USD");
    accounts[0].is_signer = false;
    assert_eq!(
        onramp(&PROGRAM, &accounts, "USD".to_string(), 1, &mut store),
        Err(LedgerError::MissingSignature)
    );
    assert_eq!(balance(&store, &A, "USD").unwrap().amount, 100);
}

#[test]
fn onramp_with_too_few_accounts_fails() {
    let mut store = store_with_balance(&A, "USD", 100);
    let accounts = onramp_accounts(&A, "USD");
    assert_eq!(
        onramp(&PROGRAM, &accounts[..3], "USD".to_string(), 1, &mut store),
        Err(LedgerError::NotEnoughAccountKeys)
    );
}

#[test]
fn onramp_at_wrong_identity_address_fails() {
    let mut store = store_with_balance(&A, "USD", 100);
    signup(&PROGRAM, &signup_accounts(&B), "bob".to_string(), &mut store).unwrap();
    let mut accounts = onramp_accounts(&A, "USD");
    accounts[1] = named(user_address(&B).0);
    assert_eq!(
        onramp(&PROGRAM, &accounts, "USD".to_string(), 1, &mut store),
        Err(LedgerError::AddressMismatch)
    );
    assert_eq!(balance(&store, &A, "USD").unwrap().amount, 100);
}

#[test]
fn onramp_at_wrong_balance_address_fails_though_a_valid_record_stands_there() {
    let mut store = store_with_balance(&A, "USD", 100);
    onramp(&PROGRAM, &onramp_accounts(&A, "EUR"), "EUR".to_string(), 5, &mut store).unwrap();
    let mut accounts = onramp_accounts(&A, "USD");
    accounts[2] = named(balance_address(&A, "EUR").0);
    assert_eq!(
        onramp(&PROGRAM, &accounts, "USD".to_string(), 1, &mut store),
        Err(LedgerError::AddressMismatch)
    );
    assert_eq!(balance(&store, &A, "USD").unwrap().amount, 100);
    assert_eq!(balance(&store, &A, "EUR").unwrap().amount, 5);
}

#[test]
fn onramp_overflow_fails_and_keeps_record() {
    let mut store = store_with_balance(&A, "USD", u64::MAX - 1);
    let address = balance_address(&A, "USD").0;
    let before = store.get(&address).cloned();
    assert_eq!(
        onramp(&PROGRAM, &onramp_accounts(&A, "USD"), "USD".to_string(), 2, &mut store),
        Err(LedgerError::Overflow)
    );
    assert_eq!(store.get(&address).cloned(), before);
    assert_eq!(
        onramp(&PROGRAM, &onramp_accounts(&A, "USD"), "USD".to_string(), 1, &mut store),
        Ok(None)
    );
    assert_eq!(balance(&store, &A, "USD").unwrap().amount, u64::MAX);
}

#[test]
fn onramp_with_symbol_too_long_for_a_seed_fails() {
    let mut store = Store::new();
    signup(&PROGRAM, &signup_accounts(&A), "alice".to_string(), &mut store).unwrap();
    let symbol = "S".repeat(33);
    let accounts =
        vec![signed(A), named(user_address(&A).0), named([9u8; 32]), named(ALLOCATOR)];
    assert_eq!(
        onramp(&PROGRAM, &accounts, symbol, 1, &mut store),
        Err(LedgerError::AddressMismatch)
    );
}

#[test]
fn onramp_with_symbol_of_seed_length_succeeds() {
    let mut store = Store::new();
    signup(&PROGRAM, &signup_accounts(&A), "alice".to_string(), &mut store).unwrap();
    let symbol = "S".repeat(32);
    let done = onramp(&PROGRAM, &onramp_accounts(&A, &symbol), symbol.clone(), 1, &mut store);
    assert_eq!(done.unwrap().unwrap().size, 32 + 4 + 32 + 8);
}

#[test]
fn transfer_debits_sender_and_creates_recipient() {
    let mut store = store_with_balance(&A, "USD", 150);
    let (address, bump) = balance_address(&B, "USD");
    let done =
        transfer(&PROGRAM, &transfer_accounts(&A, &B, "USD"), "USD".to_string(), 60, B, &mut store);
    assert_eq!(
        done,
        Ok(Some(Allocation {
            funder: A,
            target: address,
            size: 47,
            seeds: vec![b"balance".to_vec(), B.to_vec(), b"USD".to_vec()],
            bump,
        }))
    );
    assert_eq!(
        balance(&store, &A, "USD"),
        Some(BalanceAccount { owner: A, symbol: "USD".to_string(), amount: 90 })
    );
    assert_eq!(
        balance(&store, &B, "USD"),
        Some(BalanceAccount { owner: B, symbol: "USD".to_string(), amount: 60 })
    );
}

#[test]
fn transfer_debits_sender_and_adds_to_recipient() {
    let mut store = store_with_balance(&A, "USD", 150);
    signup(&PROGRAM, &signup_accounts(&B), "bob".to_string(), &mut store).unwrap();
    onramp(&PROGRAM, &onramp_accounts(&B, "USD"), "USD".to_string(), 5, &mut store).unwrap();
    let done =
        transfer(&PROGRAM, &transfer_accounts(&A, &B, "USD"), "USD".to_string(), 60, B, &mut store);
    assert_eq!(done, Ok(None));
    assert_eq!(balance(&store, &A, "USD").unwrap().amount, 90);
    assert_eq!(balance(&store, &B, "USD").unwrap().amount, 65);
}

#[test]
fn transfer_of_more_than_held_fails_and_keeps_both() {
    let mut store = store_with_balance(&A, "USD", 90);
    signup(&PROGRAM, &signup_accounts(&B), "bob".to_string(), &mut store).unwrap();
    onramp(&PROGRAM, &onramp_accounts(&B, "USD"), "USD".to_string(), 60, &mut store).unwrap();
    let keys = [balance_address(&A, "USD").0, balance_address(&B, "USD").0];
    let before = snapshot(&store, &keys);
    let done = transfer(
        &PROGRAM,
        &transfer_accounts(&A, &B, "USD"),
        "USD".to_string(),
        1000,
        B,
        &mut store,
    );
    assert_eq!(done, Err(LedgerError::InsufficientFunds));
    assert_eq!(snapshot(&store, &keys), before);
    assert_eq!(balance(&store, &A, "USD").unwrap().amount, 90);
    assert_eq!(balance(&store, &B, "USD").unwrap().amount, 60);
}

#[test]
fn transfer_of_more_than_held_creates_no_recipient() {
    let mut store = store_with_balance(&A, "USD", 90);
    let done =
        transfer(&PROGRAM, &transfer_accounts(&A, &B, "USD"), "USD".to_string(), 91, B, &mut store);
    assert_eq!(done, Err(LedgerError::InsufficientFunds));
    assert_eq!(balance(&store, &A, "USD").unwrap().amount, 90);
    assert_eq!(balance(&store, &B, "USD"), None);
}

#[test]
fn transfer_of_all_that_is_held_leaves_zero() {
    let mut store = store_with_balance(&A, "USD", 90);
    transfer(&PROGRAM, &transfer_accounts(&A, &B, "USD"), "USD".to_string(), 90, B, &mut store)
        .unwrap();
    assert_eq!(balance(&store, &A, "USD").unwrap().amount, 0);
    assert_eq!(balance(&store, &B, "USD").unwrap().amount, 90);
}

#[test]
fn transfer_overflow_fails_and_keeps_both() {
    let mut store = store_with_balance(&A, "USD", 10);
    signup(&PROGRAM, &signup_accounts(&B), "bob".to_string(), &mut store).unwrap();
    onramp(&PROGRAM, &onramp_accounts(&B, "USD"), "USD".to_string(), u64::MAX - 4, &mut store)
        .unwrap();
    let keys = [balance_address(&A, "USD").0, balance_address(&B, "USD").0];
    let before = snapshot(&store, &keys);
    let done =
        transfer(&PROGRAM, &transfer_accounts(&A, &B, "USD"), "USD".to_string(), 5, B, &mut store);
    assert_eq!(done, Err(LedgerError::Overflow));
    assert_eq!(snapshot(&store, &keys), before);
    let fits =
        transfer(&PROGRAM, &transfer_accounts(&A, &B, "USD"), "USD".to_string(), 4, B, &mut store);
    assert_eq!(fits, Ok(None));
    assert_eq!(balance(&store, &A, "USD").unwrap().amount, 6);
    assert_eq!(balance(&store, &B, "USD").unwrap().amount, u64::MAX);
}

#[test]
fn transfer_to_oneself_changes_nothing() {
    let mut store = store_with_balance(&A, "USD", 150);
    let keys = [balance_address(&A, "USD").0];
    let before = snapshot(&store, &keys);
    let done =
        transfer(&PROGRAM, &transfer_accounts(&A, &A, "USD"), "USD".to_string(), 60, A, &mut store);
    assert_eq!(done, Ok(None));
    assert_eq!(snapshot(&store, &keys), before);
    let too_much = transfer(
        &PROGRAM,
        &transfer_accounts(&A, &A, "USD"),
        "USD".to_string(),
        151,
        A,
        &mut store,
    );
    assert_eq!(too_much, Err(LedgerError::InsufficientFunds));
    assert_eq!(snapshot(&store, &keys), before);
}

#[test]
fn transfer_without_sender_record_fails() {
    let mut store = Store::new();
    let done =
        transfer(&PROGRAM, &transfer_accounts(&A, &B, "USD"), "USD".to_string(), 0, B, &mut store);
    assert_eq!(done, Err(LedgerError::DecodeError));
    assert_eq!(balance(&store, &B, "USD"), None);
}

#[test]
fn transfer_without_signature_fails() {
    let mut store = store_with_balance(&A, "USD", 150);
    let mut accounts = transfer_accounts(&A, &B, "USD");
    accounts[0].is_signer = false;
    assert_eq!(
        transfer(&PROGRAM, &accounts, "USD".to_string(), 60, B, &mut store),
        Err(LedgerError::MissingSignature)
    );
    assert_eq!(balance(&store, &A, "USD").unwrap().amount, 150);
}

#[test]
fn transfer_with_too_few_accounts_fails() {
    let mut store = store_with_balance(&A, "USD", 150);
    let accounts = transfer_accounts(&A, &B, "USD");
    assert_eq!(
        transfer(&PROGRAM, &accounts[..3], "USD".to_string(), 60, B, &mut store),
        Err(LedgerError::NotEnoughAccountKeys)
    );
}

#[test]
fn transfer_from_another_senders_record_fails() {
    let mut store = store_with_balance(&A, "USD", 150);
    let accounts = vec![
        signed(B),
        named(balance_address(&A, "USD").0),
        named(balance_address(&B, "USD").0),
        named(ALLOCATOR),
    ];
    assert_eq!(
        transfer(&PROGRAM, &accounts, "USD".to_string(), 60, B, &mut store),
        Err(LedgerError::AddressMismatch)
    );
    assert_eq!(balance(&store, &A, "USD").unwrap().amount, 150);
    assert_eq!(balance(&store, &B, "USD"), None);
}

#[test]
fn transfer_to_wrong_recipient_record_fails() {
    let mut store = store_with_balance(&A, "USD", 150);
    let accounts = vec![
        signed(A),
        named(balance_address(&A, "USD").0),
        named(balance_address(&B, "EUR").0),
        named(ALLOCATOR),
    ];
    assert_eq!(
        transfer(&PROGRAM, &accounts, "USD".to_string(), 60, B, &mut store),
        Err(LedgerError::AddressMismatch)
    );
    assert_eq!(balance(&store, &A, "USD").unwrap().amount, 150);
}

#[test]
fn process_instruction_runs_the_scenario() {
    let mut store = Store::new();
    let signup_data = Instruction::Signup { name: "alice".to_string() }.try_to_vec().unwrap();
    let done = process_instruction(&PROGRAM, &signup_accounts(&A), &signup_data, &mut store);
    assert_eq!(done.unwrap().unwrap().target, user_address(&A).0);
    let again = Instruction::Signup { name: "alice2".to_string() }.try_to_vec().unwrap();
    assert_eq!(
        process_instruction(&PROGRAM, &signup_accounts(&A), &again, &mut store),
        Err(LedgerError::AlreadyExists)
    );
    let credit =
        Instruction::Onramp { symbol: "USD".to_string(), amount: 100 }.try_to_vec().unwrap();
    let done = process_instruction(&PROGRAM, &onramp_accounts(&A, "USD"), &credit, &mut store);
    assert_eq!(done.unwrap().unwrap().target, balance_address(&A, "USD").0);
    let credit =
        Instruction::Onramp { symbol: "USD".to_string(), amount: 50 }.try_to_vec().unwrap();
    let done = process_instruction(&PROGRAM, &onramp_accounts(&A, "USD"), &credit, &mut store);
    assert_eq!(done, Ok(None));
    assert_eq!(balance(&store, &A, "USD").unwrap().amount, 150);
    let send = Instruction::Transfer { symbol: "USD".to_string(), amount: 60, recipient: B }
        .try_to_vec()
        .unwrap();
    let done = process_instruction(&PROGRAM, &transfer_accounts(&A, &B, "USD"), &send, &mut store);
    assert_eq!(done.unwrap().unwrap().target, balance_address(&B, "USD").0);
    assert_eq!(balance(&store, &A, "USD").unwrap().amount, 90);
    assert_eq!(balance(&store, &B, "USD").unwrap().amount, 60);
    let send = Instruction::Transfer { symbol: "USD".to_string(), amount: 1000, recipient: B }
        .try_to_vec()
        .unwrap();
    let done = process_instruction(&PROGRAM, &transfer_accounts(&A, &B, "USD"), &send, &mut store);
    assert_eq!(done, Err(LedgerError::InsufficientFunds));
    assert_eq!(balance(&store, &A, "USD").unwrap().amount, 90);
    assert_eq!(balance(&store, &B, "USD").unwrap().amount, 60);
}

#[test]
fn process_instruction_rejects_malformed_data_before_anything_else() {
    let mut store = Store::new();
    assert_eq!(process_instruction(&PROGRAM, &[], &[], &mut store), Err(LedgerError::DecodeError));
    assert_eq!(
        process_instruction(&PROGRAM, &[], &[9, 1, 2], &mut store),
        Err(LedgerError::DecodeError)
    );
    let mut data = Instruction::Signup { name: "alice".to_string() }.try_to_vec().unwrap();
    data.push(0);
    assert_eq!(
        process_instruction(&PROGRAM, &signup_accounts(&A), &data, &mut store),
        Err(LedgerError::DecodeError)
    );
    assert_eq!(store.get(&user_address(&A).0), None);
}

#[test]
fn process_instruction_reports_missing_accounts_of_a_decoded_instruction() {
    let mut store = Store::new();
    let data = Instruction::Signup { name: "alice".to_string() }.try_to_vec().unwrap();
    assert_eq!(
        process_instruction(&PROGRAM, &[], &data, &mut store),
        Err(LedgerError::NotEnoughAccountKeys)
    );
}

#[test]
fn require_signed_looks_at_the_signature_only() {
    assert_eq!(require_signed(&signed(A)), Ok(()));
    assert_eq!(require_signed(&named(A)), Err(LedgerError::MissingSignature));
    assert_eq!(require_signed(&named(ALLOCATOR)), Err(LedgerError::MissingSignature));
}

#[test]
fn require_identity_reads_the_record() {
    let mut store = Store::new();
    let address = user_address(&A).0;
    assert_eq!(require_identity(&store, &address, &A), Err(LedgerError::UnknownIdentity));
    signup(&PROGRAM, &signup_accounts(&A), "alice".to_string(), &mut store).unwrap();
    assert_eq!(require_identity(&store, &address, &A), Ok(()));
    assert_eq!(require_identity(&store, &address, &B), Err(LedgerError::UnknownIdentity));
}

#[test]
fn credit_record_creates_and_adds() {
    let created = credit_record(&[], &A, "USD", 100).unwrap();
    assert_eq!(
        BalanceAccount::try_from_slice(&created),
        Ok(BalanceAccount { owner: A, symbol: "USD".to_string(), amount: 100 })
    );
    let added = credit_record(&created, &B, "EUR", 50).unwrap();
    assert_eq!(
        BalanceAccount::try_from_slice(&added),
        Ok(BalanceAccount { owner: A, symbol: "USD".to_string(), amount: 150 })
    );
    assert_eq!(added.len(), created.len());
}

#[test]
fn credit_record_fails_on_overflow_and_on_malformed_bytes() {
    let held = credit_record(&[], &A, "USD", u64::MAX).unwrap();
    assert_eq!(credit_record(&held, &A, "USD", 1), Err(LedgerError::Overflow));
    assert_eq!(credit_record(&held, &A, "USD", 0), Ok(held.clone()));
    assert_eq!(credit_record(&held[1..], &A, "USD", 0), Err(LedgerError::DecodeError));
}

#[test]
fn debit_record_subtracts_or_fails() {
    let held = credit_record(&[], &A, "USD", 150).unwrap();
    let left = debit_record(&held, 60).unwrap();
    assert_eq!(
        BalanceAccount::try_from_slice(&left),
        Ok(BalanceAccount { owner: A, symbol: "USD".to_string(), amount: 90 })
    );
    assert_eq!(debit_record(&held, 151), Err(LedgerError::InsufficientFunds));
    assert_eq!(debit_record(&held, 150).map(|bytes| bytes.len()), Ok(held.len()));
    assert_eq!(debit_record(&[], 0), Err(LedgerError::DecodeError));
}
