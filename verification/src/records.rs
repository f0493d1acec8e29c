use crate::address::Pubkey;
use crate::error::LedgerError;
use crate::wire::{
    key_prefix, key_prefix_is_bytes, key_round_trip, take_key, take_text, take_u64, text_fits,
    text_frame, text_prefix, text_prefix_is_frame, text_round_trip, text_to_bytes, u64_prefix,
    u64_prefix_is_bytes, u64_round_trip, u64_to_bytes,
};
use vstd::bytes::*;
use vstd::prelude::*;
use vstd::slice::*;

verus! {

/// The record that registers an identity under a display name.
#[derive(Clone, Debug, PartialEq, Eq)]
pub struct UserAccount {
    pub signer: Pubkey,
    pub name: String,
}

/// What a `UserAccount` holds, as mathematical values.
pub struct UserAccountView {
    pub signer: Seq<u8>,
    pub name: Seq<char>,
}

impl View for UserAccount {
    type V = UserAccountView;

    open spec fn view(&self) -> UserAccountView {
        UserAccountView { signer: self.signer@, name: self.name@ }
    }
}

impl UserAccountView {
    /// Whether the record has a byte form: the identity is 32 bytes and the
    /// name fits its length prefix.
    pub open spec fn encodable(self) -> bool {
        self.signer.len() == 32 && text_fits(self.name)
    }

    /// The byte form: the identity, then the name as a text field.
    pub open spec fn encoding(self) -> Seq<u8> {
        self.signer + text_frame(self.name)
    }

    /// The record that `bytes` spell, where they are an identity and a text
    /// field with nothing behind them.
    pub open spec fn parse(bytes: Seq<u8>) -> Option<UserAccountView> {
        match key_prefix(bytes) {
            None => None,
            Some((signer, after_signer)) => match text_prefix(after_signer) {
                None => None,
                Some((name, rest)) => if rest.len() == 0 {
                    Some(UserAccountView { signer, name })
                } else {
                    None
                },
            },
        }
    }

    /// Encoding and then parsing gives the record back.
    pub proof fn round_trip(self)
        requires
            self.encodable(),
        ensures
            Self::parse(self.encoding()) == Some(self),
    {
        key_round_trip(self.signer, text_frame(self.name));
        text_round_trip(self.name, Seq::empty());
        assert(text_frame(self.name) + Seq::<u8>::empty() =~= text_frame(self.name));
    }

    /// Bytes that parse are the encoding of what they parse to: every record
    /// has one byte form only.
    pub proof fn parse_is_canonical(bytes: Seq<u8>)
        ensures
            Self::parse(bytes) matches Some(record) ==> record.encodable() && record.encoding()
                == bytes,
    {
        if let Some(record) = Self::parse(bytes) {
            key_prefix_is_bytes(bytes);
            let after_signer = key_prefix(bytes).unwrap().1;
            text_prefix_is_frame(after_signer);
            let rest = text_prefix(after_signer).unwrap().1;
            assert(text_frame(record.name) + rest =~= text_frame(record.name));
        }
    }
}

impl UserAccount {
    /// The byte form of the record, or `DecodeError` where the name is too
    /// long for its length prefix.
    pub fn try_to_vec(&self) -> (out: Result<Vec<u8>, LedgerError>)
        ensures
            match out {
                Ok(bytes) => self@.encodable() && bytes@ == self@.encoding(),
                Err(e) => e == LedgerError::DecodeError && !self@.encodable(),
            },
    {
        let mut bytes = slice_to_vec(self.signer.as_slice());
        match text_to_bytes(self.name.as_str()) {
            None => Err(LedgerError::DecodeError),
            Some(mut name) => {
                bytes.append(&mut name);
                Ok(bytes)
            },
        }
    }

    /// The record that `bytes` spell, or `DecodeError` where they spell none:
    /// too short, a name that is not UTF-8, or bytes left over.
    pub fn try_from_slice(bytes: &[u8]) -> (out: Result<UserAccount, LedgerError>)
        ensures
            match out {
                Ok(record) => UserAccountView::parse(bytes@) == Some(record@),
                Err(e) => e == LedgerError::DecodeError && UserAccountView::parse(bytes@) is None,
            },
    {
        let (signer, after_signer) = match take_key(bytes) {
            None => return Err(LedgerError::DecodeError),
            Some(taken) => taken,
        };
        let (name, rest) = match take_text(after_signer) {
            None => return Err(LedgerError::DecodeError),
            Some(taken) => taken,
        };
        if rest.len() != 0 {
            return Err(LedgerError::DecodeError);
        }
        Ok(UserAccount { signer, name })
    }
}

/// The record that holds what one identity owns of one asset.
#[derive(Clone, Debug, PartialEq, Eq)]
pub struct BalanceAccount {
    pub owner: Pubkey,
    pub symbol: String,
    pub amount: u64,
}

/// What a `BalanceAccount` holds, as mathematical values.
pub struct BalanceAccountView {
    pub owner: Seq<u8>,
    pub symbol: Seq<char>,
    pub amount: u64,
}

impl View for BalanceAccount {
    type V = BalanceAccountView;

    open spec fn view(&self) -> BalanceAccountView {
        BalanceAccountView { owner: self.owner@, symbol: self.symbol@, amount: self.amount }
    }
}

impl BalanceAccountView {
    /// Whether the record has a byte form: the owner is 32 bytes and the
    /// symbol fits its length prefix.
    pub open spec fn encodable(self) -> bool {
        self.owner.len() == 32 && text_fits(self.symbol)
    }

    /// The byte form: the owner, the symbol as a text field, then the amount
    /// in eight little-endian bytes.
    pub open spec fn encoding(self) -> Seq<u8> {
        self.owner + text_frame(self.symbol) + spec_u64_to_le_bytes(self.amount)
    }

    /// The record that `bytes` spell, where they are an identity, a text field
    /// and an amount with nothing behind them.
    pub open spec fn parse(bytes: Seq<u8>) -> Option<BalanceAccountView> {
        match key_prefix(bytes) {
            None => None,
            Some((owner, after_owner)) => match text_prefix(after_owner) {
                None => None,
                Some((symbol, after_symbol)) => match u64_prefix(after_symbol) {
                    None => None,
                    Some((amount, rest)) => if rest.len() == 0 {
                        Some(BalanceAccountView { owner, symbol, amount })
                    } else {
                        None
                    },
                },
            },
        }
    }

    /// The same record with another amount.
    pub open spec fn with_amount(self, amount: u64) -> BalanceAccountView {
        BalanceAccountView { amount, ..self }
    }

    /// Encoding and then parsing gives the record back.
    pub proof fn round_trip(self)
        requires
            self.encodable(),
        ensures
            Self::parse(self.encoding()) == Some(self),
    {
        let amount = spec_u64_to_le_bytes(self.amount);
        let tail = text_frame(self.symbol) + amount;
        assert(self.encoding() =~= self.owner + tail);
        key_round_trip(self.owner, tail);
        text_round_trip(self.symbol, amount);
        u64_round_trip(self.amount, Seq::empty());
        assert(amount + Seq::<u8>::empty() =~= amount);
    }

    /// Bytes that parse are the encoding of what they parse to: every record
    /// has one byte form only.
    pub proof fn parse_is_canonical(bytes: Seq<u8>)
        ensures
            Self::parse(bytes) matches Some(record) ==> record.encodable() && record.encoding()
                == bytes,
    {
        if let Some(record) = Self::parse(bytes) {
            key_prefix_is_bytes(bytes);
            let after_owner = key_prefix(bytes).unwrap().1;
            text_prefix_is_frame(after_owner);
            let after_symbol = text_prefix(after_owner).unwrap().1;
            u64_prefix_is_bytes(after_symbol);
            let amount = spec_u64_to_le_bytes(record.amount);
            assert(amount + u64_prefix(after_symbol).unwrap().1 =~= amount);
            assert(record.encoding() =~= record.owner + (text_frame(record.symbol) + amount));
        }
    }

    /// The length of the byte form does not depend on the amount.
    pub proof fn amount_keeps_length(self, amount: u64)
        ensures
            self.with_amount(amount).encoding().len() == self.encoding().len(),
            self.with_amount(amount).encodable() == self.encodable(),
    {
        lemma_auto_spec_u64_to_from_le_bytes();
    }
}

impl BalanceAccount {
    /// The byte form of the record, or `DecodeError` where the symbol is too
    /// long for its length prefix.
    pub fn try_to_vec(&self) -> (out: Result<Vec<u8>, LedgerError>)
        ensures
            match out {
                Ok(bytes) => self@.encodable() && bytes@ == self@.encoding(),
                Err(e) => e == LedgerError::DecodeError && !self@.encodable(),
            },
    {
        let mut bytes = slice_to_vec(self.owner.as_slice());
        match text_to_bytes(self.symbol.as_str()) {
            None => Err(LedgerError::DecodeError),
            Some(mut symbol) => {
                bytes.append(&mut symbol);
                let mut amount = u64_to_bytes(self.amount).unwrap();
                bytes.append(&mut amount);
                Ok(bytes)
            },
        }
    }

    /// The record that `bytes` spell, or `DecodeError` where they spell none:
    /// too short, a symbol that is not UTF-8, or bytes left over.
    pub fn try_from_slice(bytes: &[u8]) -> (out: Result<BalanceAccount, LedgerError>)
        ensures
            match out {
                Ok(record) => BalanceAccountView::parse(bytes@) == Some(record@),
                Err(e) => e == LedgerError::DecodeError && BalanceAccountView::parse(bytes@)
                    is None,
            },
    {
        let (owner, after_owner) = match take_key(bytes) {
            None => return Err(LedgerError::DecodeError),
            Some(taken) => taken,
        };
        let (symbol, after_symbol) = match take_text(after_owner) {
            None => return Err(LedgerError::DecodeError),
            Some(taken) => taken,
        };
        let (amount, rest) = match take_u64(after_symbol) {
            None => return Err(LedgerError::DecodeError),
            Some(taken) => taken,
        };
        if rest.len() != 0 {
            return Err(LedgerError::DecodeError);
        }
        Ok(BalanceAccount { owner, symbol, amount })
    }
}

} // verus!
