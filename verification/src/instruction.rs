use crate::address::Pubkey;
use crate::error::LedgerError;
use crate::wire::{
    key_prefix, key_prefix_is_bytes, key_round_trip, take_key, take_text, take_u64, text_fits,
    text_frame, text_prefix, text_prefix_is_frame, text_round_trip, text_to_bytes, u64_prefix,
    u64_prefix_is_bytes, u64_round_trip, u64_to_bytes,
};
use vstd::bytes::*;
use vstd::prelude::*;
use vstd::slice::*;

verus! {

/// What a caller asks of the ledger.
#[derive(Clone, Debug, PartialEq, Eq)]
pub enum Instruction {
    /// Register the signer under a display name.
    Signup { name: String },
    /// Credit the signer's balance of an asset.
    Onramp { symbol: String, amount: u64 },
    /// Move an amount of an asset from the signer to a recipient.
    Transfer { symbol: String, amount: u64, recipient: Pubkey },
}

/// What an `Instruction` holds, as mathematical values.
pub enum InstructionView {
    Signup { name: Seq<char> },
    Onramp { symbol: Seq<char>, amount: u64 },
    Transfer { symbol: Seq<char>, amount: u64, recipient: Seq<u8> },
}

impl View for Instruction {
    type V = InstructionView;

    open spec fn view(&self) -> InstructionView {
        match self {
            Instruction::Signup { name } => InstructionView::Signup { name: name@ },
            Instruction::Onramp { symbol, amount } => InstructionView::Onramp {
                symbol: symbol@,
                amount: *amount,
            },
            Instruction::Transfer { symbol, amount, recipient } => InstructionView::Transfer {
                symbol: symbol@,
                amount: *amount,
                recipient: recipient@,
            },
        }
    }
}

impl InstructionView {
    /// Whether the instruction has a byte form: its text fits the length
    /// prefix, and a recipient is 32 bytes.
    pub open spec fn encodable(self) -> bool {
        match self {
            InstructionView::Signup { name } => text_fits(name),
            InstructionView::Onramp { symbol, amount } => text_fits(symbol),
            InstructionView::Transfer { symbol, amount, recipient } => text_fits(symbol)
                && recipient.len() == 32,
        }
    }

    /// The byte form: one byte that tells the variant, then the fields in the
    /// order of their declaration.
    pub open spec fn encoding(self) -> Seq<u8> {
        match self {
            InstructionView::Signup { name } => seq![0u8] + text_frame(name),
            InstructionView::Onramp { symbol, amount } => seq![1u8] + text_frame(symbol)
                + spec_u64_to_le_bytes(amount),
            InstructionView::Transfer { symbol, amount, recipient } => seq![2u8] + text_frame(
                symbol,
            ) + spec_u64_to_le_bytes(amount) + recipient,
        }
    }

    /// The fields of a `Signup`, with nothing behind them.
    pub open spec fn parse_signup(fields: Seq<u8>) -> Option<InstructionView> {
        match text_prefix(fields) {
            Some((name, rest)) if rest.len() == 0 => Some(InstructionView::Signup { name }),
            _ => None,
        }
    }

    /// The fields of an `Onramp`, with nothing behind them.
    pub open spec fn parse_onramp(fields: Seq<u8>) -> Option<InstructionView> {
        match text_prefix(fields) {
            None => None,
            Some((symbol, after_symbol)) => match u64_prefix(after_symbol) {
                Some((amount, rest)) if rest.len() == 0 => Some(
                    InstructionView::Onramp { symbol, amount },
                ),
                _ => None,
            },
        }
    }

    /// The fields of a `Transfer`, with nothing behind them.
    pub open spec fn parse_transfer(fields: Seq<u8>) -> Option<InstructionView> {
        match text_prefix(fields) {
            None => None,
            Some((symbol, after_symbol)) => match u64_prefix(after_symbol) {
                None => None,
                Some((amount, after_amount)) => match key_prefix(after_amount) {
                    Some((recipient, rest)) if rest.len() == 0 => Some(
                        InstructionView::Transfer { symbol, amount, recipient },
                    ),
                    _ => None,
                },
            },
        }
    }

    /// The instruction that `bytes` spell: a known variant byte, then the
    /// fields of that variant with nothing behind them.
    pub open spec fn parse(bytes: Seq<u8>) -> Option<InstructionView> {
        if bytes.len() == 0 {
            None
        } else if bytes[0] == 0 {
            Self::parse_signup(bytes.subrange(1, bytes.len() as int))
        } else if bytes[0] == 1 {
            Self::parse_onramp(bytes.subrange(1, bytes.len() as int))
        } else if bytes[0] == 2 {
            Self::parse_transfer(bytes.subrange(1, bytes.len() as int))
        } else {
            None
        }
    }

    /// Encoding and then parsing gives the instruction back.
    pub proof fn round_trip(self)
        requires
            self.encodable(),
        ensures
            Self::parse(self.encoding()) == Some(self),
    {
        let bytes = self.encoding();
        let fields = bytes.subrange(1, bytes.len() as int);
        match self {
            InstructionView::Signup { name } => {
                assert(fields =~= text_frame(name) + Seq::<u8>::empty());
                text_round_trip(name, Seq::empty());
            },
            InstructionView::Onramp { symbol, amount } => {
                let tail = spec_u64_to_le_bytes(amount);
                assert(fields =~= text_frame(symbol) + tail);
                text_round_trip(symbol, tail);
                assert(tail =~= tail + Seq::<u8>::empty());
                u64_round_trip(amount, Seq::empty());
            },
            InstructionView::Transfer { symbol, amount, recipient } => {
                let tail = spec_u64_to_le_bytes(amount) + recipient;
                assert(fields =~= text_frame(symbol) + tail);
                text_round_trip(symbol, tail);
                u64_round_trip(amount, recipient);
                assert(recipient =~= recipient + Seq::<u8>::empty());
                key_round_trip(recipient, Seq::empty());
            },
        }
    }

    /// Bytes that parse are the encoding of what they parse to: every
    /// instruction has one byte form only.
    pub proof fn parse_is_canonical(bytes: Seq<u8>)
        ensures
            Self::parse(bytes) matches Some(instruction) ==> instruction.encodable()
                && instruction.encoding() == bytes,
    {
        if let Some(instruction) = Self::parse(bytes) {
            let fields = bytes.subrange(1, bytes.len() as int);
            assert(bytes =~= seq![bytes[0]] + fields);
            text_prefix_is_frame(fields);
            let after_text = text_prefix(fields).unwrap().1;
            match instruction {
                InstructionView::Signup { name } => {
                    assert(fields =~= text_frame(name));
                },
                InstructionView::Onramp { symbol, amount } => {
                    u64_prefix_is_bytes(after_text);
                    assert(after_text =~= spec_u64_to_le_bytes(amount));
                    assert(instruction.encoding() =~= seq![1u8] + (text_frame(symbol)
                        + spec_u64_to_le_bytes(amount)));
                },
                InstructionView::Transfer { symbol, amount, recipient } => {
                    u64_prefix_is_bytes(after_text);
                    let after_amount = u64_prefix(after_text).unwrap().1;
                    key_prefix_is_bytes(after_amount);
                    assert(after_amount =~= recipient);
                    assert(instruction.encoding() =~= seq![2u8] + (text_frame(symbol) + (
                    spec_u64_to_le_bytes(amount) + recipient)));
                },
            }
        }
    }
}

impl Instruction {
    /// The byte form of the instruction, or `DecodeError` where its text is
    /// too long for the length prefix.
    pub fn try_to_vec(&self) -> (out: Result<Vec<u8>, LedgerError>)
        ensures
            match out {
                Ok(bytes) => self@.encodable() && bytes@ == self@.encoding(),
                Err(e) => e == LedgerError::DecodeError && !self@.encodable(),
            },
    {
        let mut bytes: Vec<u8> = Vec::new();
        match self {
            Instruction::Signup { name } => {
                bytes.push(0u8);
                let mut text = match text_to_bytes(name.as_str()) {
                    None => return Err(LedgerError::DecodeError),
                    Some(text) => text,
                };
                bytes.append(&mut text);
            },
            Instruction::Onramp { symbol, amount } => {
                bytes.push(1u8);
                let mut text = match text_to_bytes(symbol.as_str()) {
                    None => return Err(LedgerError::DecodeError),
                    Some(text) => text,
                };
                bytes.append(&mut text);
                let mut number = u64_to_bytes(*amount).unwrap();
                bytes.append(&mut number);
            },
            Instruction::Transfer { symbol, amount, recipient } => {
                bytes.push(2u8);
                let mut text = match text_to_bytes(symbol.as_str()) {
                    None => return Err(LedgerError::DecodeError),
                    Some(text) => text,
                };
                bytes.append(&mut text);
                let mut number = u64_to_bytes(*amount).unwrap();
                bytes.append(&mut number);
                let mut key = slice_to_vec(recipient.as_slice());
                bytes.append(&mut key);
            },
        }
        assert(bytes@ =~= self@.encoding());
        Ok(bytes)
    }

    /// The instruction that `bytes` spell, or `DecodeError` where they spell
    /// none: an unknown variant byte, a field cut short, text that is not
    /// UTF-8, or bytes left over.
    pub fn try_from_slice(bytes: &[u8]) -> (out: Result<Instruction, LedgerError>)
        ensures
            match out {
                Ok(instruction) => InstructionView::parse(bytes@) == Some(instruction@),
                Err(e) => e == LedgerError::DecodeError && InstructionView::parse(bytes@) is None,
            },
    {
        if bytes.len() == 0 {
            return Err(LedgerError::DecodeError);
        }
        let variant: u8 = bytes[0];
        if variant > 2 {
            return Err(LedgerError::DecodeError);
        }
        let fields = slice_subrange(bytes, 1, bytes.len());
        let (text, after_text) = match take_text(fields) {
            None => return Err(LedgerError::DecodeError),
            Some(taken) => taken,
        };
        if variant == 0 {
            if after_text.len() != 0 {
                return Err(LedgerError::DecodeError);
            }
            return Ok(Instruction::Signup { name: text });
        }
        let (amount, after_amount) = match take_u64(after_text) {
            None => return Err(LedgerError::DecodeError),
            Some(taken) => taken,
        };
        if variant == 1 {
            if after_amount.len() != 0 {
                return Err(LedgerError::DecodeError);
            }
            return Ok(Instruction::Onramp { symbol: text, amount });
        }
        let (recipient, rest) = match take_key(after_amount) {
            None => return Err(LedgerError::DecodeError),
            Some(taken) => taken,
        };
        if rest.len() != 0 {
            return Err(LedgerError::DecodeError);
        }
        Ok(Instruction::Transfer { symbol: text, amount, recipient })
    }
}

} // verus!
