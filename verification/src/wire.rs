use crate::address::Pubkey;
use vstd::bytes::*;
use vstd::prelude::*;
use vstd::slice::*;
use vstd::string::*;
use vstd::utf8::*;

verus! {

/// The bytes of a text field: the length of its UTF-8 form as four
/// little-endian bytes, then that form.
pub open spec fn text_frame(text: Seq<char>) -> Seq<u8> {
    spec_u32_to_le_bytes(encode_utf8(text).len() as u32) + encode_utf8(text)
}

/// Whether the UTF-8 form of `text` is short enough for the length prefix.
pub open spec fn text_fits(text: Seq<char>) -> bool {
    encode_utf8(text).len() <= u32::MAX
}

/// The identity at the front of `input` and the bytes behind it, where `input`
/// holds at least the 32 bytes of an identity.
pub open spec fn key_prefix(input: Seq<u8>) -> Option<(Seq<u8>, Seq<u8>)> {
    if input.len() < 32 {
        None
    } else {
        Some((input.subrange(0, 32), input.subrange(32, input.len() as int)))
    }
}

/// The amount at the front of `input` and the bytes behind it, where `input`
/// holds at least the eight bytes of an amount.
pub open spec fn u64_prefix(input: Seq<u8>) -> Option<(u64, Seq<u8>)> {
    if input.len() < 8 {
        None
    } else {
        Some((spec_u64_from_le_bytes(input.subrange(0, 8)), input.subrange(8, input.len() as int)))
    }
}

/// The text field at the front of `input` and the bytes behind it, where
/// `input` starts with a length prefix, holds as many bytes behind it as the
/// prefix says, and those bytes are valid UTF-8.
pub open spec fn text_prefix(input: Seq<u8>) -> Option<(Seq<char>, Seq<u8>)> {
    if input.len() < 4 {
        None
    } else {
        let len = spec_u32_from_le_bytes(input.subrange(0, 4)) as int;
        if input.len() - 4 < len {
            None
        } else if !valid_utf8(input.subrange(4, 4 + len)) {
            None
        } else {
            Some(
                (
                    decode_utf8(input.subrange(4, 4 + len)),
                    input.subrange(4 + len, input.len() as int),
                ),
            )
        }
    }
}

/// Calls `borsh::to_vec` on a `u64`.
///
/// Trusted: the call succeeds and gives the eight little-endian bytes of
/// `value`.
#[verifier::external_body]
pub(crate) fn u64_to_bytes(value: u64) -> (out: Option<Vec<u8>>)
    ensures
        out is Some,
        out matches Some(b) ==> b@ == spec_u64_to_le_bytes(value),
{
    borsh::to_vec(&value).ok()
}

/// Calls `borsh::to_vec` on a `str`.
///
/// Trusted: the call succeeds exactly when the UTF-8 form of `text` is at most
/// `u32::MAX` bytes long, and then gives that length as four little-endian
/// bytes followed by the form itself.
#[verifier::external_body]
pub(crate) fn text_to_bytes(text: &str) -> (out: Option<Vec<u8>>)
    ensures
        out is Some <==> text_fits(text@),
        out matches Some(b) ==> b@ == text_frame(text@),
{
    borsh::to_vec(text).ok()
}

/// Calls `borsh::BorshDeserialize::deserialize` for `u64` on a byte slice.
///
/// Trusted: the call succeeds exactly when `input` holds eight bytes or more,
/// and then gives the amount that the first eight spell in little-endian
/// order, and leaves the slice at the bytes behind them.
#[verifier::external_body]
pub(crate) fn take_u64(input: &[u8]) -> (taken: Option<(u64, &[u8])>)
    ensures
        match taken {
            Some((value, rest)) => u64_prefix(input@) == Some((value, rest@)),
            None => u64_prefix(input@) is None,
        },
{
    let mut rest = input;
    match <u64 as borsh::BorshDeserialize>::deserialize(&mut rest) {
        Ok(value) => Some((value, rest)),
        Err(_) => None,
    }
}

/// Calls `borsh::BorshDeserialize::deserialize` for `String` on a byte slice.
///
/// Trusted: the call succeeds exactly when `input` starts with four bytes that
/// spell a length in little-endian order, holds at least that many bytes
/// behind them, and those bytes are valid UTF-8; it then gives the text that
/// they encode, and leaves the slice at the bytes behind them.
#[verifier::external_body]
pub(crate) fn take_text(input: &[u8]) -> (taken: Option<(String, &[u8])>)
    ensures
        match taken {
            Some((text, rest)) => text_prefix(input@) == Some((text@, rest@)),
            None => text_prefix(input@) is None,
        },
{
    let mut rest = input;
    match <String as borsh::BorshDeserialize>::deserialize(&mut rest) {
        Ok(text) => Some((text, rest)),
        Err(_) => None,
    }
}

/// Reads an identity off the front of `input`.
pub(crate) fn take_key(input: &[u8]) -> (taken: Option<(Pubkey, &[u8])>)
    ensures
        match taken {
            Some((key, rest)) => key_prefix(input@) == Some((key@, rest@)),
            None => key_prefix(input@) is None,
        },
{
    if input.len() < 32 {
        return None;
    }
    let mut key: Pubkey = [0u8; 32];
    let mut i: usize = 0;
    while i < 32
        invariant
            i <= 32,
            input@.len() >= 32,
            forall|j: int| 0 <= j < i ==> key@[j] == input@[j],
        decreases 32 - i,
    {
        key[i] = input[i];
        i += 1;
    }
    let rest = slice_subrange(input, 32, input.len());
    assert(key@ =~= input@.subrange(0, 32));
    Some((key, rest))
}

/// A text field that is written and read again is the same text, and nothing
/// of what stood behind it is lost.
pub proof fn text_round_trip(text: Seq<char>, rest: Seq<u8>)
    requires
        text_fits(text),
    ensures
        text_prefix(text_frame(text) + rest) == Some((text, rest)),
{
    let body = encode_utf8(text);
    let input = text_frame(text) + rest;
    lemma_auto_spec_u32_to_from_le_bytes();
    encode_utf8_valid_utf8(text);
    encode_utf8_decode_utf8(text);
    let head = spec_u32_to_le_bytes(body.len() as u32);
    assert(input.subrange(0, 4) =~= head);
    let len = spec_u32_from_le_bytes(input.subrange(0, 4)) as int;
    assert(len == body.len());
    assert(input.subrange(4, 4 + len) =~= body);
    assert(input.subrange(4 + len, input.len() as int) =~= rest);
}

/// The bytes of a text field that was read are the field's frame: no two byte
/// strings read as the same text with the same remainder.
pub proof fn text_prefix_is_frame(input: Seq<u8>)
    ensures
        text_prefix(input) matches Some((text, rest)) ==> text_fits(text) && input == text_frame(
            text,
        ) + rest,
{
    if text_prefix(input) is Some {
        lemma_auto_spec_u32_to_from_le_bytes();
        let len = spec_u32_from_le_bytes(input.subrange(0, 4)) as int;
        let body = input.subrange(4, 4 + len);
        decode_utf8_encode_utf8(body);
        assert(spec_u32_to_le_bytes(len as u32) == input.subrange(0, 4));
        assert(input =~= text_frame(decode_utf8(body)) + input.subrange(
            4 + len,
            input.len() as int,
        ));
    }
}

/// An identity that is written and read again is the same identity, and
/// nothing of what stood behind it is lost.
pub proof fn key_round_trip(key: Seq<u8>, rest: Seq<u8>)
    requires
        key.len() == 32,
    ensures
        key_prefix(key + rest) == Some((key, rest)),
{
    let input = key + rest;
    assert(input.subrange(0, 32) =~= key);
    assert(input.subrange(32, input.len() as int) =~= rest);
}

/// The bytes of an identity that was read are the identity itself.
pub proof fn key_prefix_is_bytes(input: Seq<u8>)
    ensures
        key_prefix(input) matches Some((key, rest)) ==> key.len() == 32 && input == key + rest,
{
    if key_prefix(input) is Some {
        assert(input =~= input.subrange(0, 32) + input.subrange(32, input.len() as int));
    }
}

/// An amount that is written and read again is the same amount, and nothing of
/// what stood behind it is lost.
pub proof fn u64_round_trip(value: u64, rest: Seq<u8>)
    ensures
        u64_prefix(spec_u64_to_le_bytes(value) + rest) == Some((value, rest)),
{
    lemma_auto_spec_u64_to_from_le_bytes();
    let input = spec_u64_to_le_bytes(value) + rest;
    assert(input.subrange(0, 8) =~= spec_u64_to_le_bytes(value));
    assert(input.subrange(8, input.len() as int) =~= rest);
}

/// The bytes of an amount that was read are its eight little-endian bytes.
pub proof fn u64_prefix_is_bytes(input: Seq<u8>)
    ensures
        u64_prefix(input) matches Some((value, rest)) ==> input == spec_u64_to_le_bytes(value)
            + rest,
{
    if u64_prefix(input) is Some {
        lemma_auto_spec_u64_to_from_le_bytes();
        assert(input =~= input.subrange(0, 8) + input.subrange(8, input.len() as int));
    }
}

} // verus!
