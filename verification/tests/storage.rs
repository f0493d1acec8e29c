use payment_ledger::address::Pubkey;
use payment_ledger::error::LedgerError;
use payment_ledger::ledger::{AccountRef, Allocation};
use payment_ledger::storage::{
    process_instruction, ResultAccount, ResultInstruction, RESULT_ACCOUNT_SPACE,
};
use payment_ledger::store::Store;

const PROGRAM: Pubkey = [7u8; 32];
const PAYER: Pubkey = [1u8; 32];
const TARGET: Pubkey = [2u8; 32];

fn accounts() -> Vec<AccountRef> {
    vec![
        AccountRef { key: PAYER, is_signer: true },
        AccountRef { key: TARGET, is_signer: true },
        AccountRef { key: [0u8; 32], is_signer: false },
    ]
}

fn stored(store: &Store) -> Option<ResultAccount> {
    store.get(&TARGET).map(|bytes| ResultAccount::try_from_slice(bytes).unwrap())
}

#[test]
fn result_account_encodes_three_little_endian_numbers() {
    let record = ResultAccount { num1: 1, num2: 0x0201, result: u64::MAX };
    let mut expected = vec![1, 0, 0, 0, 0, 0, 0, 0, 1, 2, 0, 0, 0, 0, 0, 0];
    expected.extend_from_slice(&[0xff; 8]);
    assert_eq!(record.try_to_vec(), Ok(expected.clone()));
    assert_eq!(expected.len(), RESULT_ACCOUNT_SPACE);
    assert_eq!(ResultAccount::try_from_slice(&expected), Ok(record));
    assert_eq!(borsh::to_vec(&(1u64, 0x0201u64, u64::MAX)).unwrap(), expected);
}

#[test]
fn result_account_rejects_other_lengths() {
    assert_eq!(ResultAccount::try_from_slice(&[0u8; 23]), Err(LedgerError::DecodeError));
    assert_eq!(ResultAccount::try_from_slice(&[0u8; 25]), Err(LedgerError::DecodeError));
    assert_eq!(ResultAccount::try_from_slice(&[]), Err(LedgerError::DecodeError));
}

#[test]
fn result_instruction_round_trips() {
    let initialize = ResultInstruction::Initialize { num1: 3, num2: 4 };
    let bytes = initialize.try_to_vec().unwrap();
    assert_eq!(bytes, vec![0, 3, 0, 0, 0, 0, 0, 0, 0, 4, 0, 0, 0, 0, 0, 0, 0]);
    assert_eq!(ResultInstruction::try_from_slice(&bytes), Ok(initialize));
    let update = ResultInstruction::Update { num1: u64::MAX, num2: 0 };
    let bytes = update.try_to_vec().unwrap();
    assert_eq!(bytes[0], 1);
    assert_eq!(ResultInstruction::try_from_slice(&bytes), Ok(update));
}

#[test]
fn result_instruction_rejects_malformed_bytes() {
    assert_eq!(ResultInstruction::try_from_slice(&[]), Err(LedgerError::DecodeError));
    assert_eq!(ResultInstruction::try_from_slice(&[2u8; 17]), Err(LedgerError::DecodeError));
    assert_eq!(ResultInstruction::try_from_slice(&[0u8; 16]), Err(LedgerError::DecodeError));
    assert_eq!(ResultInstruction::try_from_slice(&[0u8; 18]), Err(LedgerError::DecodeError));
}

#[test]
fn initialize_stores_the_sum() {
    let mut store = Store::new();
    let data = ResultInstruction::Initialize { num1: 3, num2: 4 }.try_to_vec().unwrap();
    let done = process_instruction(&PROGRAM, &accounts(), &data, &mut store);
    assert_eq!(
        done,
        Ok(Some(Allocation { funder: PAYER, target: TARGET, size: 24, seeds: vec![], bump: 0 }))
    );
    assert_eq!(stored(&store), Some(ResultAccount { num1: 3, num2: 4, result: 7 }));
}

#[test]
fn initialize_twice_fails() {
    let mut store = Store::new();
    let data = ResultInstruction::Initialize { num1: 3, num2: 4 }.try_to_vec().unwrap();
    process_instruction(&PROGRAM, &accounts(), &data, &mut store).unwrap();
    let again = ResultInstruction::Initialize { num1: 1, num2: 1 }.try_to_vec().unwrap();
    assert_eq!(
        process_instruction(&PROGRAM, &accounts(), &again, &mut store),
        Err(LedgerError::AllocError)
    );
    assert_eq!(stored(&store), Some(ResultAccount { num1: 3, num2: 4, result: 7 }));
}

#[test]
fn update_replaces_the_record() {
    let mut store = Store::new();
    let data = ResultInstruction::Initialize { num1: 3, num2: 4 }.try_to_vec().unwrap();
    process_instruction(&PROGRAM, &accounts(), &data, &mut store).unwrap();
    let update = ResultInstruction::Update { num1: 10, num2: 20 }.try_to_vec().unwrap();
    assert_eq!(process_instruction(&PROGRAM, &accounts(), &update, &mut store), Ok(None));
    assert_eq!(stored(&store), Some(ResultAccount { num1: 10, num2: 20, result: 30 }));
}

#[test]
fn update_without_record_fails() {
    let mut store = Store::new();
    let update = ResultInstruction::Update { num1: 10, num2: 20 }.try_to_vec().unwrap();
    assert_eq!(
        process_instruction(&PROGRAM, &accounts(), &update, &mut store),
        Err(LedgerError::DecodeError)
    );
    assert_eq!(store.get(&TARGET), None);
}

#[test]
fn sum_overflow_fails_and_keeps_record() {
    let mut store = Store::new();
    let overflow = ResultInstruction::Initialize { num1: u64::MAX, num2: 1 }.try_to_vec().unwrap();
    assert_eq!(
        process_instruction(&PROGRAM, &accounts(), &overflow, &mut store),
        Err(LedgerError::Overflow)
    );
    assert_eq!(store.get(&TARGET), None);
    let data = ResultInstruction::Initialize { num1: u64::MAX, num2: 0 }.try_to_vec().unwrap();
    process_instruction(&PROGRAM, &accounts(), &data, &mut store).unwrap();
    let overflow = ResultInstruction::Update { num1: 1, num2: u64::MAX }.try_to_vec().unwrap();
    assert_eq!(
        process_instruction(&PROGRAM, &accounts(), &overflow, &mut store),
        Err(LedgerError::Overflow)
    );
    assert_eq!(stored(&store), Some(ResultAccount { num1: u64::MAX, num2: 0, result: u64::MAX }));
}

#[test]
fn sum_record_takes_exactly_three_accounts() {
    let mut store = Store::new();
    let data = ResultInstruction::Initialize { num1: 3, num2: 4 }.try_to_vec().unwrap();
    let three = accounts();
    let mut four = accounts();
    four.push(AccountRef { key: [5u8; 32], is_signer: false });
    assert_eq!(
        process_instruction(&PROGRAM, &three[..2], &data, &mut store),
        Err(LedgerError::NotEnoughAccountKeys)
    );
    assert_eq!(
        process_instruction(&PROGRAM, &four, &data, &mut store),
        Err(LedgerError::NotEnoughAccountKeys)
    );
    assert_eq!(
        process_instruction(&PROGRAM, &three[..2], &[], &mut store),
        Err(LedgerError::NotEnoughAccountKeys)
    );
    assert_eq!(
        process_instruction(&PROGRAM, &three, &[7], &mut store),
        Err(LedgerError::DecodeError)
    );
}
