use vstd::prelude::*;

verus! {

/// Why a call was rejected. A rejected call leaves every record as it was.
#[derive(Clone, Copy, Debug, PartialEq, Eq, Structural)]
pub enum LedgerError {
    /// Instruction or record bytes are not well formed, or do not fit the
    /// record they are written to.
    DecodeError,
    /// The invoking identity did not sign the call.
    MissingSignature,
    /// A supplied address is not the one derived from the seeds.
    AddressMismatch,
    /// The record to create already holds data.
    AlreadyExists,
    /// No identity record stands for the signer.
    UnknownIdentity,
    /// The sender's balance is smaller than the amount to send.
    InsufficientFunds,
    /// A sum would exceed the range of an unsigned 64-bit amount.
    Overflow,
    /// Storage could not be provided at the target address.
    AllocError,
    /// The call names fewer records than the operation takes.
    NotEnoughAccountKeys,
}

} // verus!
