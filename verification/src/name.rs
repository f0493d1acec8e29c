use crate::address::Pubkey;
use crate::error::LedgerError;
use crate::ledger::{allocation_view, AccountRef, Allocation, Outcome};
use crate::storage::{allocate_plain, plain_allocation};
use crate::store::{overlay, record_at, zeros, Store};
use crate::wire::{
    take_text, text_fits, text_frame, text_prefix, text_prefix_is_frame, text_round_trip,
    text_to_bytes,
};
use vstd::bytes::*;
use vstd::prelude::*;
use vstd::slice::*;

verus! {

/// The bytes of storage that a name record is given, whatever the name.
pub const NAME_ACCOUNT_SPACE: usize = 82;

/// What the payer puts down for a name record, in the host's smallest unit.
pub const NAME_ACCOUNT_LAMPORTS: u64 = 1_000_000_000;

/// The record of a name.
#[derive(Clone, Debug, PartialEq, Eq)]
pub struct NameAccount {
    pub name: String,
}

/// What a `NameAccount` holds, as mathematical values.
pub struct NameAccountView {
    pub name: Seq<char>,
}

impl View for NameAccount {
    type V = NameAccountView;

    open spec fn view(&self) -> NameAccountView {
        NameAccountView { name: self.name@ }
    }
}

impl NameAccountView {
    /// Whether the record has a byte form: the name fits its length prefix.
    pub open spec fn encodable(self) -> bool {
        text_fits(self.name)
    }

    /// The byte form: the name as a text field.
    pub open spec fn encoding(self) -> Seq<u8> {
        text_frame(self.name)
    }

    /// The record that `bytes` spell, where they are a text field with nothing
    /// behind it.
    pub open spec fn parse(bytes: Seq<u8>) -> Option<NameAccountView> {
        match text_prefix(bytes) {
            Some((name, rest)) if rest.len() == 0 => Some(NameAccountView { name }),
            _ => None,
        }
    }

    /// Encoding and then parsing gives the record back.
    pub proof fn round_trip(self)
        requires
            self.encodable(),
        ensures
            Self::parse(self.encoding()) == Some(self),
    {
        assert(self.encoding() =~= text_frame(self.name) + Seq::<u8>::empty());
        text_round_trip(self.name, Seq::empty());
    }

    /// Bytes that parse are the encoding of what they parse to.
    pub proof fn parse_is_canonical(bytes: Seq<u8>)
        ensures
            Self::parse(bytes) matches Some(record) ==> record.encodable() && record.encoding()
                == bytes,
    {
        if let Some(record) = Self::parse(bytes) {
            text_prefix_is_frame(bytes);
            assert(bytes =~= text_frame(record.name));
        }
    }
}

impl NameAccount {
    /// The byte form of the record, or `DecodeError` where the name is too
    /// long for its length prefix.
    pub fn try_to_vec(&self) -> (out: Result<Vec<u8>, LedgerError>)
        ensures
            match out {
                Ok(bytes) => self@.encodable() && bytes@ == self@.encoding(),
                Err(e) => e == LedgerError::DecodeError && !self@.encodable(),
            },
    {
        match text_to_bytes(self.name.as_str()) {
            None => Err(LedgerError::DecodeError),
            Some(bytes) => Ok(bytes),
        }
    }

    /// The record that `bytes` spell, or `DecodeError` where they spell none:
    /// too short, a name that is not UTF-8, or bytes left over.
    pub fn try_from_slice(bytes: &[u8]) -> (out: Result<NameAccount, LedgerError>)
        ensures
            match out {
                Ok(record) => NameAccountView::parse(bytes@) == Some(record@),
                Err(e) => e == LedgerError::DecodeError && NameAccountView::parse(bytes@) is None,
            },
    {
        let (name, rest) = match take_text(bytes) {
            None => return Err(LedgerError::DecodeError),
            Some(taken) => taken,
        };
        if rest.len() != 0 {
            return Err(LedgerError::DecodeError);
        }
        Ok(NameAccount { name })
    }
}

/// What a caller asks of the name record.
#[derive(Clone, Debug, PartialEq, Eq)]
pub enum NameInstruction {
    /// Create the record with a name.
    Initialize(String),
    /// Write another name over the record.
    Update(String),
}

/// What a `NameInstruction` holds, as mathematical values.
pub enum NameInstructionView {
    Initialize(Seq<char>),
    Update(Seq<char>),
}

impl View for NameInstruction {
    type V = NameInstructionView;

    open spec fn view(&self) -> NameInstructionView {
        match self {
            NameInstruction::Initialize(name) => NameInstructionView::Initialize(name@),
            NameInstruction::Update(name) => NameInstructionView::Update(name@),
        }
    }
}

impl NameInstructionView {
    /// The name that the instruction carries.
    pub open spec fn name(self) -> Seq<char> {
        match self {
            NameInstructionView::Initialize(name) => name,
            NameInstructionView::Update(name) => name,
        }
    }

    /// Whether the instruction has a byte form: the name fits its length
    /// prefix.
    pub open spec fn encodable(self) -> bool {
        text_fits(self.name())
    }

    /// The byte form: one byte that tells the variant, then the name as a text
    /// field.
    pub open spec fn encoding(self) -> Seq<u8> {
        match self {
            NameInstructionView::Initialize(name) => seq![0u8] + text_frame(name),
            NameInstructionView::Update(name) => seq![1u8] + text_frame(name),
        }
    }

    /// The instruction that `bytes` spell: a known variant byte, then a text
    /// field with nothing behind it.
    pub open spec fn parse(bytes: Seq<u8>) -> Option<NameInstructionView> {
        if bytes.len() == 0 || bytes[0] > 1 {
            None
        } else {
            match text_prefix(bytes.subrange(1, bytes.len() as int)) {
                Some((name, rest)) if rest.len() == 0 => if bytes[0] == 0 {
                    Some(NameInstructionView::Initialize(name))
                } else {
                    Some(NameInstructionView::Update(name))
                },
                _ => None,
            }
        }
    }

    /// Encoding and then parsing gives the instruction back.
    pub proof fn round_trip(self)
        requires
            self.encodable(),
        ensures
            Self::parse(self.encoding()) == Some(self),
    {
        let bytes = self.encoding();
        assert(bytes.subrange(1, bytes.len() as int) =~= text_frame(self.name()) + Seq::<
            u8,
        >::empty());
        text_round_trip(self.name(), Seq::empty());
    }
}

impl NameInstruction {
    /// The byte form of the instruction, or `DecodeError` where the name is
    /// too long for its length prefix.
    pub fn try_to_vec(&self) -> (out: Result<Vec<u8>, LedgerError>)
        ensures
            match out {
                Ok(bytes) => self@.encodable() && bytes@ == self@.encoding(),
                Err(e) => e == LedgerError::DecodeError && !self@.encodable(),
            },
    {
        let mut bytes: Vec<u8> = Vec::new();
        let name = match self {
            NameInstruction::Initialize(name) => {
                bytes.push(0u8);
                name
            },
            NameInstruction::Update(name) => {
                bytes.push(1u8);
                name
            },
        };
        match text_to_bytes(name.as_str()) {
            None => Err(LedgerError::DecodeError),
            Some(mut text) => {
                bytes.append(&mut text);
                Ok(bytes)
            },
        }
    }

    /// The instruction that `bytes` spell, or `DecodeError` where they spell
    /// none.
    pub fn try_from_slice(bytes: &[u8]) -> (out: Result<NameInstruction, LedgerError>)
        ensures
            match out {
                Ok(instruction) => NameInstructionView::parse(bytes@) == Some(instruction@),
                Err(e) => e == LedgerError::DecodeError && NameInstructionView::parse(bytes@)
                    is None,
            },
    {
        if bytes.len() == 0 {
            return Err(LedgerError::DecodeError);
        }
        let variant: u8 = bytes[0];
        if variant > 1 {
            return Err(LedgerError::DecodeError);
        }
        let (name, rest) = match take_text(slice_subrange(bytes, 1, bytes.len())) {
            None => return Err(LedgerError::DecodeError),
            Some(taken) => taken,
        };
        if rest.len() != 0 {
            return Err(LedgerError::DecodeError);
        }
        if variant == 0 {
            Ok(NameInstruction::Initialize(name))
        } else {
            Ok(NameInstruction::Update(name))
        }
    }
}

/// What the call that `instruction_data` spell gives, on `records`.
///
/// The call names the payer, the name record and the host's allocator, these
/// three and no more. It is rejected where it names another number of
/// records, and where the bytes spell no instruction. `Initialize` is rejected
/// where a record stands already, and where the name's byte form is longer
/// than `NAME_ACCOUNT_SPACE`; it writes that form over the front of storage
/// of `NAME_ACCOUNT_SPACE` zero bytes. `Update` is rejected where the record
/// spells no name, and where the new name's byte form is longer than the
/// record; it writes that form over the front of the record.
pub open spec fn process_instruction_spec(
    accounts: Seq<AccountRef>,
    instruction_data: Seq<u8>,
    records: Map<Seq<u8>, Seq<u8>>,
) -> Result<Outcome, LedgerError> {
    if accounts.len() != 3 {
        Err(LedgerError::NotEnoughAccountKeys)
    } else {
        let payer = accounts[0].key@;
        let target = accounts[1].key@;
        let existing = record_at(records, target);
        match NameInstructionView::parse(instruction_data) {
            None => Err(LedgerError::DecodeError),
            Some(NameInstructionView::Initialize(name)) => if records.contains_key(target) {
                Err(LedgerError::AllocError)
            } else if text_frame(name).len() > NAME_ACCOUNT_SPACE {
                Err(LedgerError::DecodeError)
            } else {
                Ok(
                    Outcome {
                        records: records.insert(
                            target,
                            overlay(zeros(NAME_ACCOUNT_SPACE as nat), text_frame(name)),
                        ),
                        allocation: Some(
                            plain_allocation(payer, target, NAME_ACCOUNT_SPACE as nat),
                        ),
                    },
                )
            },
            Some(NameInstructionView::Update(name)) => if NameAccountView::parse(existing)
                is None {
                Err(LedgerError::DecodeError)
            } else if text_frame(name).len() > existing.len() {
                Err(LedgerError::DecodeError)
            } else {
                Ok(
                    Outcome {
                        records: records.insert(target, overlay(existing, text_frame(name))),
                        allocation: None,
                    },
                )
            },
        }
    }
}

/// The entry point of the name record: decodes the instruction and creates
/// the record, or writes a new name over it.
///
/// `program_id` names the program that a new record will belong to; the rules
/// do not read it. A call that is rejected leaves the store as it was.
pub fn process_instruction(
    program_id: &Pubkey,
    accounts: &[AccountRef],
    instruction_data: &[u8],
    store: &mut Store,
) -> (out: Result<Option<Allocation>, LedgerError>)
    ensures
        match process_instruction_spec(accounts@, instruction_data@, old(store)@) {
            Ok(outcome) => out matches Ok(allocation) && outcome.allocation == allocation_view(
                allocation,
            ) && final(store)@ == outcome.records,
            Err(e) => out matches Err(rejected) && rejected == e && final(store)@ == old(store)@,
        },
{
    if accounts.len() != 3 {
        return Err(LedgerError::NotEnoughAccountKeys);
    }
    let payer = &accounts[0];
    let name_account = &accounts[1];
    let instruction = match NameInstruction::try_from_slice(instruction_data) {
        Ok(instruction) => instruction,
        Err(e) => return Err(e),
    };
    proof {
        lemma_auto_spec_u32_to_from_le_bytes();
    }
    match instruction {
        NameInstruction::Initialize(name) => {
            if store.get(&name_account.key).is_some() {
                return Err(LedgerError::AllocError);
            }
            let name_account_data = NameAccount { name };
            let bytes = match name_account_data.try_to_vec() {
                Ok(bytes) => bytes,
                Err(e) => return Err(e),
            };
            if bytes.len() > NAME_ACCOUNT_SPACE {
                return Err(LedgerError::DecodeError);
            }
            match store.create_record(&name_account.key, NAME_ACCOUNT_SPACE) {
                Ok(_) => {},
                Err(e) => return Err(e),
            }
            match store.write(&name_account.key, bytes.as_slice()) {
                Ok(_) => {},
                Err(e) => return Err(e),
            }
            proof {
                assert(store@ =~= old(store)@.insert(
                    name_account.key@,
                    overlay(zeros(NAME_ACCOUNT_SPACE as nat), bytes@),
                ));
            }
            Ok(Some(allocate_plain(&payer.key, &name_account.key, NAME_ACCOUNT_SPACE)))
        },
        NameInstruction::Update(name) => {
            let absent: Vec<u8> = Vec::new();
            let existing = match store.get(&name_account.key) {
                Some(data) => data,
                None => &absent,
            };
            let mut name_account_data = match NameAccount::try_from_slice(existing.as_slice()) {
                Ok(record) => record,
                Err(e) => return Err(e),
            };
            name_account_data.name = name;
            let bytes = match name_account_data.try_to_vec() {
                Ok(bytes) => bytes,
                Err(e) => return Err(e),
            };
            let ghost before = record_at(store@, name_account.key@);
            match store.write(&name_account.key, bytes.as_slice()) {
                Ok(_) => {},
                Err(e) => return Err(e),
            }
            proof {
                assert(store@ =~= old(store)@.insert(name_account.key@, overlay(before, bytes@)));
            }
            Ok(None)
        },
    }
}

} // verus!
