use crate::address::Pubkey;
use crate::error::LedgerError;
use crate::ledger::{allocation_view, AccountRef, Allocation, AllocationView, Outcome};
use crate::store::{overlay, record_at, zeros, Store};
use crate::wire::{take_u64, u64_prefix, u64_prefix_is_bytes, u64_round_trip, u64_to_bytes};
use vstd::bytes::*;
use vstd::prelude::*;
use vstd::slice::*;

verus! {

/// The bytes that a sum record takes: three amounts of eight bytes each.
pub const RESULT_ACCOUNT_SPACE: usize = 24;

/// The record of a sum: two numbers and what they add up to.
#[derive(Clone, Copy, Debug, PartialEq, Eq)]
pub struct ResultAccount {
    pub num1: u64,
    pub num2: u64,
    pub result: u64,
}

impl ResultAccount {
    /// The byte form: the three numbers in the order of their declaration,
    /// each in eight little-endian bytes.
    pub open spec fn encoding(self) -> Seq<u8> {
        spec_u64_to_le_bytes(self.num1) + spec_u64_to_le_bytes(self.num2) + spec_u64_to_le_bytes(
            self.result,
        )
    }

    /// The record that `bytes` spell, where they are three amounts with
    /// nothing behind them.
    pub open spec fn parse(bytes: Seq<u8>) -> Option<ResultAccount> {
        match u64_prefix(bytes) {
            None => None,
            Some((num1, after_first)) => match u64_prefix(after_first) {
                None => None,
                Some((num2, after_second)) => match u64_prefix(after_second) {
                    Some((result, rest)) if rest.len() == 0 => Some(
                        ResultAccount { num1, num2, result },
                    ),
                    _ => None,
                },
            },
        }
    }

    /// Encoding and then parsing gives the record back, and the byte form
    /// takes `RESULT_ACCOUNT_SPACE` bytes.
    pub proof fn round_trip(self)
        ensures
            Self::parse(self.encoding()) == Some(self),
            self.encoding().len() == RESULT_ACCOUNT_SPACE,
    {
        let second = spec_u64_to_le_bytes(self.num2);
        let third = spec_u64_to_le_bytes(self.result);
        lemma_auto_spec_u64_to_from_le_bytes();
        assert(self.encoding() =~= spec_u64_to_le_bytes(self.num1) + (second + third));
        u64_round_trip(self.num1, second + third);
        u64_round_trip(self.num2, third);
        assert(third =~= third + Seq::<u8>::empty());
        u64_round_trip(self.result, Seq::empty());
    }

    /// Bytes that parse are the encoding of what they parse to.
    pub proof fn parse_is_canonical(bytes: Seq<u8>)
        ensures
            Self::parse(bytes) matches Some(record) ==> record.encoding() == bytes,
    {
        if let Some(record) = Self::parse(bytes) {
            u64_prefix_is_bytes(bytes);
            let after_first = u64_prefix(bytes).unwrap().1;
            u64_prefix_is_bytes(after_first);
            let after_second = u64_prefix(after_first).unwrap().1;
            u64_prefix_is_bytes(after_second);
            assert(after_second =~= spec_u64_to_le_bytes(record.result));
            assert(record.encoding() =~= spec_u64_to_le_bytes(record.num1) + (spec_u64_to_le_bytes(
                record.num2,
            ) + spec_u64_to_le_bytes(record.result)));
        }
    }

    /// The byte form of the record.
    pub fn try_to_vec(&self) -> (out: Result<Vec<u8>, LedgerError>)
        ensures
            out matches Ok(bytes) && bytes@ == self.encoding(),
    {
        let mut bytes = u64_to_bytes(self.num1).unwrap();
        let mut second = u64_to_bytes(self.num2).unwrap();
        bytes.append(&mut second);
        let mut third = u64_to_bytes(self.result).unwrap();
        bytes.append(&mut third);
        Ok(bytes)
    }

    /// The record that `bytes` spell, or `DecodeError` where they are not 24
    /// bytes.
    pub fn try_from_slice(bytes: &[u8]) -> (out: Result<ResultAccount, LedgerError>)
        ensures
            match out {
                Ok(record) => Self::parse(bytes@) == Some(record),
                Err(e) => e == LedgerError::DecodeError && Self::parse(bytes@) is None,
            },
    {
        let (num1, after_first) = match take_u64(bytes) {
            None => return Err(LedgerError::DecodeError),
            Some(taken) => taken,
        };
        let (num2, after_second) = match take_u64(after_first) {
            None => return Err(LedgerError::DecodeError),
            Some(taken) => taken,
        };
        let (result, rest) = match take_u64(after_second) {
            None => return Err(LedgerError::DecodeError),
            Some(taken) => taken,
        };
        if rest.len() != 0 {
            return Err(LedgerError::DecodeError);
        }
        Ok(ResultAccount { num1, num2, result })
    }
}

/// What a caller asks of the sum record.
#[derive(Clone, Copy, Debug, PartialEq, Eq)]
pub enum ResultInstruction {
    /// Create the record with the sum of two numbers.
    Initialize { num1: u64, num2: u64 },
    /// Replace the record by the sum of two other numbers.
    Update { num1: u64, num2: u64 },
}

impl ResultInstruction {
    /// The byte form: one byte that tells the variant, then the two numbers.
    pub open spec fn encoding(self) -> Seq<u8> {
        match self {
            ResultInstruction::Initialize { num1, num2 } => seq![0u8] + spec_u64_to_le_bytes(num1)
                + spec_u64_to_le_bytes(num2),
            ResultInstruction::Update { num1, num2 } => seq![1u8] + spec_u64_to_le_bytes(num1)
                + spec_u64_to_le_bytes(num2),
        }
    }

    /// The instruction that `bytes` spell: a known variant byte, then two
    /// amounts with nothing behind them.
    pub open spec fn parse(bytes: Seq<u8>) -> Option<ResultInstruction> {
        if bytes.len() == 0 || bytes[0] > 1 {
            None
        } else {
            match u64_prefix(bytes.subrange(1, bytes.len() as int)) {
                None => None,
                Some((num1, after_first)) => match u64_prefix(after_first) {
                    Some((num2, rest)) if rest.len() == 0 => if bytes[0] == 0 {
                        Some(ResultInstruction::Initialize { num1, num2 })
                    } else {
                        Some(ResultInstruction::Update { num1, num2 })
                    },
                    _ => None,
                },
            }
        }
    }

    /// Encoding and then parsing gives the instruction back.
    pub proof fn round_trip(self)
        ensures
            Self::parse(self.encoding()) == Some(self),
    {
        let bytes = self.encoding();
        let (num1, num2) = match self {
            ResultInstruction::Initialize { num1, num2 } => (num1, num2),
            ResultInstruction::Update { num1, num2 } => (num1, num2),
        };
        let second = spec_u64_to_le_bytes(num2);
        assert(bytes.subrange(1, bytes.len() as int) =~= spec_u64_to_le_bytes(num1) + second);
        u64_round_trip(num1, second);
        assert(second =~= second + Seq::<u8>::empty());
        u64_round_trip(num2, Seq::empty());
    }

    /// The byte form of the instruction.
    pub fn try_to_vec(&self) -> (out: Result<Vec<u8>, LedgerError>)
        ensures
            out matches Ok(bytes) && bytes@ == self.encoding(),
    {
        let mut bytes: Vec<u8> = Vec::new();
        let (num1, num2) = match self {
            ResultInstruction::Initialize { num1, num2 } => {
                bytes.push(0u8);
                (*num1, *num2)
            },
            ResultInstruction::Update { num1, num2 } => {
                bytes.push(1u8);
                (*num1, *num2)
            },
        };
        let mut first = u64_to_bytes(num1).unwrap();
        bytes.append(&mut first);
        let mut second = u64_to_bytes(num2).unwrap();
        bytes.append(&mut second);
        Ok(bytes)
    }

    /// The instruction that `bytes` spell, or `DecodeError` where they spell
    /// none.
    pub fn try_from_slice(bytes: &[u8]) -> (out: Result<ResultInstruction, LedgerError>)
        ensures
            match out {
                Ok(instruction) => Self::parse(bytes@) == Some(instruction),
                Err(e) => e == LedgerError::DecodeError && Self::parse(bytes@) is None,
            },
    {
        if bytes.len() == 0 {
            return Err(LedgerError::DecodeError);
        }
        let variant: u8 = bytes[0];
        if variant > 1 {
            return Err(LedgerError::DecodeError);
        }
        let (num1, after_first) = match take_u64(slice_subrange(bytes, 1, bytes.len())) {
            None => return Err(LedgerError::DecodeError),
            Some(taken) => taken,
        };
        let (num2, rest) = match take_u64(after_first) {
            None => return Err(LedgerError::DecodeError),
            Some(taken) => taken,
        };
        if rest.len() != 0 {
            return Err(LedgerError::DecodeError);
        }
        if variant == 0 {
            Ok(ResultInstruction::Initialize { num1, num2 })
        } else {
            Ok(ResultInstruction::Update { num1, num2 })
        }
    }
}

/// The storage taken for a record that is at no derived address: the target
/// signs for itself, so there are no seeds.
pub open spec fn plain_allocation(funder: Seq<u8>, target: Seq<u8>, size: nat) -> AllocationView {
    AllocationView { funder, target, size: size as u64, seeds: Seq::empty(), bump: 0 }
}

/// Names the storage taken for a record that is at no derived address.
pub fn allocate_plain(funder: &Pubkey, target: &Pubkey, size: usize) -> (allocation: Allocation)
    ensures
        allocation@ == plain_allocation(funder@, target@, size as nat),
{
    let allocation = Allocation {
        funder: *funder,
        target: *target,
        size: size as u64,
        seeds: Vec::new(),
        bump: 0,
    };
    assert(allocation.seeds.deep_view() =~= Seq::<Seq<u8>>::empty());
    allocation
}

/// What the call that `instruction_data` spell gives, on `records`.
///
/// The call names the payer, the sum record and the host's allocator, these
/// three and no more. It is rejected where it names another number of
/// records, where the bytes spell no instruction, and where the two numbers
/// add up to more than an unsigned 64-bit amount holds. `Initialize` is
/// rejected where a record stands already, and stores the sum in storage
/// taken for it; `Update` is rejected where no sum record stands, and writes
/// the new sum over it.
pub open spec fn process_instruction_spec(
    accounts: Seq<AccountRef>,
    instruction_data: Seq<u8>,
    records: Map<Seq<u8>, Seq<u8>>,
) -> Result<Outcome, LedgerError> {
    if accounts.len() != 3 {
        Err(LedgerError::NotEnoughAccountKeys)
    } else {
        let payer = accounts[0].key@;
        let target = accounts[1].key@;
        match ResultInstruction::parse(instruction_data) {
            None => Err(LedgerError::DecodeError),
            Some(ResultInstruction::Initialize { num1, num2 }) => if num1 + num2 > u64::MAX {
                Err(LedgerError::Overflow)
            } else if records.contains_key(target) {
                Err(LedgerError::AllocError)
            } else {
                let record = ResultAccount { num1, num2, result: (num1 + num2) as u64 };
                Ok(
                    Outcome {
                        records: records.insert(target, record.encoding()),
                        allocation: Some(
                            plain_allocation(payer, target, RESULT_ACCOUNT_SPACE as nat),
                        ),
                    },
                )
            },
            Some(ResultInstruction::Update { num1, num2 }) => if num1 + num2 > u64::MAX {
                Err(LedgerError::Overflow)
            } else if ResultAccount::parse(record_at(records, target)) is None {
                Err(LedgerError::DecodeError)
            } else {
                let record = ResultAccount { num1, num2, result: (num1 + num2) as u64 };
                Ok(Outcome { records: records.insert(target, record.encoding()), allocation: None })
            },
        }
    }
}

/// The entry point of the sum record: decodes the instruction, adds the two
/// numbers by checked addition, and creates or replaces the record.
///
/// `program_id` names the program that a new record will belong to; the rules
/// do not read it. A call that is rejected leaves the store as it was.
pub fn process_instruction(
    program_id: &Pubkey,
    accounts: &[AccountRef],
    instruction_data: &[u8],
    store: &mut Store,
) -> (out: Result<Option<Allocation>, LedgerError>)
    ensures
        match process_instruction_spec(accounts@, instruction_data@, old(store)@) {
            Ok(outcome) => out matches Ok(allocation) && outcome.allocation == allocation_view(
                allocation,
            ) && final(store)@ == outcome.records,
            Err(e) => out matches Err(rejected) && rejected == e && final(store)@ == old(store)@,
        },
{
    if accounts.len() != 3 {
        return Err(LedgerError::NotEnoughAccountKeys);
    }
    let payer = &accounts[0];
    let result_account = &accounts[1];
    let instruction = match ResultInstruction::try_from_slice(instruction_data) {
        Ok(instruction) => instruction,
        Err(e) => return Err(e),
    };
    match instruction {
        ResultInstruction::Initialize { num1, num2 } => {
            let sum = match num1.checked_add(num2) {
                Some(sum) => sum,
                None => return Err(LedgerError::Overflow),
            };
            let result_account_data = ResultAccount { num1, num2, result: sum };
            let bytes = match result_account_data.try_to_vec() {
                Ok(bytes) => bytes,
                Err(e) => return Err(e),
            };
            proof {
                result_account_data.round_trip();
            }
            match store.create_record(&result_account.key, bytes.len()) {
                Ok(_) => {},
                Err(e) => return Err(e),
            }
            match store.write(&result_account.key, bytes.as_slice()) {
                Ok(_) => {},
                Err(e) => return Err(e),
            }
            proof {
                assert(overlay(zeros(bytes@.len()), bytes@) =~= bytes@);
                assert(store@ =~= old(store)@.insert(result_account.key@, bytes@));
            }
            Ok(Some(allocate_plain(&payer.key, &result_account.key, bytes.len())))
        },
        ResultInstruction::Update { num1, num2 } => {
            let sum = match num1.checked_add(num2) {
                Some(sum) => sum,
                None => return Err(LedgerError::Overflow),
            };
            let absent: Vec<u8> = Vec::new();
            let existing = match store.get(&result_account.key) {
                Some(data) => data,
                None => &absent,
            };
            let mut result_account_data = match ResultAccount::try_from_slice(existing.as_slice()) {
                Ok(record) => record,
                Err(e) => return Err(e),
            };
            proof {
                ResultAccount::parse_is_canonical(existing@);
                result_account_data.round_trip();
            }
            result_account_data.num1 = num1;
            result_account_data.num2 = num2;
            result_account_data.result = sum;
            let bytes = match result_account_data.try_to_vec() {
                Ok(bytes) => bytes,
                Err(e) => return Err(e),
            };
            proof {
                result_account_data.round_trip();
            }
            let ghost before = record_at(store@, result_account.key@);
            match store.write(&result_account.key, bytes.as_slice()) {
                Ok(_) => {},
                Err(e) => return Err(e),
            }
            proof {
                assert(overlay(before, bytes@) =~= bytes@);
                assert(store@ =~= old(store)@.insert(result_account.key@, bytes@));
            }
            Ok(None)
        },
    }
}

} // verus!
