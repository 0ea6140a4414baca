//! The calls into `bincode_next` (standard configuration: little endian,
//! variable-length integers, no limit, no fingerprint) that the wire format
//! rests on. Each item states what the crate's specification and source show
//! for the one type it is used with; nothing here is proved.

use vstd::prelude::*;
use vstd::utf8::encode_utf8;
use crate::wire::{bytes_field_parse, str_field_parse, varint_bytes, varint_parse, WireError};

verus! {

#[verifier::external_type_specification]
#[verifier::external_body]
pub struct ExEncodeError(bincode_next::error::EncodeError);

#[verifier::external_type_specification]
#[verifier::external_body]
pub struct ExDecodeError(bincode_next::error::DecodeError);

/// `bincode_next::encode_to_vec` on a `u64`: it never fails, and the bytes are
/// the variable-length integer encoding of the value.
#[verifier::external_body]
pub(crate) fn encode_u64(v: u64) -> (res: Result<Vec<u8>, bincode_next::error::EncodeError>)
    ensures
        res is Ok,
        res->Ok_0@ == varint_bytes(v),
{
    bincode_next::encode_to_vec(v, bincode_next::config::standard())
}

/// `bincode_next::encode_to_vec` on a `u8`: it never fails, and the value is
/// written as one raw byte.
#[verifier::external_body]
pub(crate) fn encode_u8(v: u8) -> (res: Result<Vec<u8>, bincode_next::error::EncodeError>)
    ensures
        res is Ok,
        res->Ok_0@ == seq![v],
{
    bincode_next::encode_to_vec(v, bincode_next::config::standard())
}

/// `bincode_next::encode_to_vec` on a `&str`: it never fails, and the bytes are
/// the length of the UTF-8 form as a variable-length integer, then the UTF-8 bytes.
#[verifier::external_body]
pub(crate) fn encode_str(s: &str) -> (res: Result<Vec<u8>, bincode_next::error::EncodeError>)
    ensures
        res is Ok,
        res->Ok_0@ == varint_bytes(encode_utf8(s@).len() as u64) + encode_utf8(s@),
{
    bincode_next::encode_to_vec(s, bincode_next::config::standard())
}

/// `bincode_next::encode_to_vec` on a `&Vec<u8>`: it never fails, and the bytes
/// are the length as a variable-length integer, then the bytes themselves.
#[verifier::external_body]
pub(crate) fn encode_byte_vec(v: &Vec<u8>) -> (res: Result<Vec<u8>, bincode_next::error::EncodeError>)
    ensures
        res is Ok,
        res->Ok_0@ == varint_bytes(v@.len() as u64) + v@,
{
    bincode_next::encode_to_vec(v, bincode_next::config::standard())
}

/// `bincode_next::decode_from_slice::<u64, _>`: it succeeds exactly when the input
/// starts with a variable-length integer (tag byte up to 250, or 251, 252, 253
/// followed by 2, 4, 8 little-endian bytes), and returns its value and size.
#[verifier::external_body]
pub(crate) fn decode_u64(bytes: &[u8]) -> (res: Result<(u64, usize), bincode_next::error::DecodeError>)
    ensures
        varint_parse(bytes@) is Ok ==> res is Ok,
        res matches Ok((v, n)) ==> varint_parse(bytes@) is Ok && varint_parse(bytes@)->Ok_0 == (v, n as nat),
{
    bincode_next::decode_from_slice::<u64, _>(bytes, bincode_next::config::standard())
}

/// `bincode_next::decode_from_slice::<u8, _>`: it succeeds exactly when the input
/// is not empty, and returns the first byte.
#[verifier::external_body]
pub(crate) fn decode_u8(bytes: &[u8]) -> (res: Result<(u8, usize), bincode_next::error::DecodeError>)
    ensures
        bytes@.len() >= 1 ==> res is Ok,
        res matches Ok((v, n)) ==> bytes@.len() >= 1 && v == bytes@[0] && n == 1,
{
    bincode_next::decode_from_slice::<u8, _>(bytes, bincode_next::config::standard())
}

/// `bincode_next::decode_from_slice::<String, _>`: it reads the length, then that
/// many bytes, and succeeds exactly when they are there and are UTF-8. The crate
/// reserves the announced length before reading, so the input must hold it.
#[verifier::external_body]
pub(crate) fn decode_string(bytes: &[u8]) -> (res: Result<(String, usize), bincode_next::error::DecodeError>)
    requires
        varint_parse(bytes@) matches Ok((len, m)) ==> m + len <= bytes@.len(),
    ensures
        str_field_parse(bytes@) is Ok ==> res is Ok,
        res matches Ok((s, n)) ==> str_field_parse(bytes@) is Ok && str_field_parse(bytes@)->Ok_0 == (s@, n as nat),
{
    bincode_next::decode_from_slice::<String, _>(bytes, bincode_next::config::standard())
}

/// `bincode_next::decode_from_slice::<Vec<u8>, _>`: it reads the length, then that
/// many bytes, and succeeds exactly when they are there. The crate reserves the
/// announced length before reading, so the input must hold it.
#[verifier::external_body]
pub(crate) fn decode_byte_vec(bytes: &[u8]) -> (res: Result<(Vec<u8>, usize), bincode_next::error::DecodeError>)
    requires
        varint_parse(bytes@) matches Ok((len, m)) ==> m + len <= bytes@.len(),
    ensures
        bytes_field_parse(bytes@) is Ok ==> res is Ok,
        res matches Ok((v, n)) ==> bytes_field_parse(bytes@) is Ok && bytes_field_parse(bytes@)->Ok_0 == (v@, n as nat),
{
    bincode_next::decode_from_slice::<Vec<u8>, _>(bytes, bincode_next::config::standard())
}

} // verus!
