//! Reading and writing single values in SpacetimeDB's BSATN binary format,
//! through `spacetimedb_lib::bsatn`.
use spacetimedb_lib::bsatn;
use vstd::bytes::*;
use vstd::prelude::*;
use vstd::utf8::*;

use crate::compression::hex_literal;
use crate::text::decimal;

verus! {

/// `spacetimedb_lib::bsatn::EncodeError`, carried through as an opaque value.
#[verifier::external_type_specification]
#[verifier::external_body]
pub struct ExEncodeError(bsatn::EncodeError);

/// The little-endian `u32` at the start of `b`.
pub open spec fn le_u32(b: Seq<u8>) -> u32 {
    spec_u32_from_le_bytes(b.subrange(0, 4))
}

/// The little-endian `u64` at the start of `b`.
pub open spec fn le_u64(b: Seq<u8>) -> u64 {
    spec_u64_from_le_bytes(b.subrange(0, 8))
}

/// The text of `DecodeError::BufferLength`: a value of type `ty` needed
/// `expected` bytes and only `given` were left.
pub open spec fn short_text(ty: Seq<char>, expected: nat, given: nat) -> Seq<char> {
    "data too short for "@ + ty + ": Expected "@ + decimal(expected) + ", given "@ + decimal(given)
}

/// The error text of reading a `bool` from `b`: too short for its byte, or
/// a byte other than `0` or `1` (`DecodeError::InvalidBool`).
pub open spec fn bool_error(b: Seq<u8>) -> Seq<char> {
    if b.len() < 1 {
        short_text("u8"@, 1, b.len())
    } else {
        "byte "@ + decimal(b[0] as nat) + " not valid as `bool` (must be 0 or 1)"@
    }
}

/// The error text of reading a length-prefixed byte string from `b`: too
/// short for the `u32` length, or for the bytes it announces.
pub open spec fn bytes_error(b: Seq<u8>) -> Seq<char> {
    if b.len() < 4 {
        short_text("u32"@, 4, b.len())
    } else {
        short_text("[u8]"@, le_u32(b) as nat, (b.len() - 4) as nat)
    }
}

/// The error text of reading a string from `b`: that of its bytes, or, when
/// they are all there, that they are not UTF-8 (`DecodeError::InvalidUtf8`).
pub open spec fn string_error(b: Seq<u8>) -> Seq<char> {
    if prefixed(b) is None {
        bytes_error(b)
    } else {
        "invalid utf8"@
    }
}

/// The text of `DecodeError::InvalidTag` for a tag past the last variant of
/// `ElementKind`.
pub open spec fn unknown_kind_text(tag: u8) -> Seq<char> {
    "unknown tag "@ + hex_literal(tag) + " for sum type ElementKind"@
}

/// A field's decoding error: `failed to decode field '<name>': ` and the
/// decoder's text.
pub open spec fn field_message(field: Seq<char>, detail: Seq<char>) -> Seq<char> {
    "failed to decode field '"@ + field + "': "@ + detail
}

/// A length-prefixed byte string at the start of `b`: its payload and the
/// bytes after it, if `b` holds the whole of it.
pub open spec fn prefixed(b: Seq<u8>) -> Option<(Seq<u8>, Seq<u8>)> {
    if b.len() < 4 || b.len() < 4 + le_u32(b) {
        None
    } else {
        let n = le_u32(b) as int;
        Some((b.subrange(4, 4 + n), b.subrange(4 + n, b.len() as int)))
    }
}

/// `bsatn::from_reader::<u8>`: one byte.
#[verifier::external_body]
pub(crate) fn read_u8<'a>(bytes: &'a [u8]) -> (r: Result<(u8, &'a [u8]), String>)
    ensures
        r is Ok <==> bytes@.len() >= 1,
        r matches Ok((v, rest)) ==> v == bytes@[0] && rest@ == bytes@.subrange(1, bytes@.len() as int),
        r matches Err(t) ==> t@ == short_text("u8"@, 1, bytes@.len()),
{
    let mut rest = bytes;
    match bsatn::from_reader::<u8>(&mut rest) {
        Ok(v) => Ok((v, rest)),
        Err(e) => Err(e.to_string()),
    }
}

/// `bsatn::from_reader::<u32>`: four bytes, little endian.
#[verifier::external_body]
pub(crate) fn read_u32<'a>(bytes: &'a [u8]) -> (r: Result<(u32, &'a [u8]), String>)
    ensures
        r is Ok <==> bytes@.len() >= 4,
        r matches Ok((v, rest)) ==> v == le_u32(bytes@) && rest@ == bytes@.subrange(4, bytes@.len() as int),
        r matches Err(t) ==> t@ == short_text("u32"@, 4, bytes@.len()),
{
    let mut rest = bytes;
    match bsatn::from_reader::<u32>(&mut rest) {
        Ok(v) => Ok((v, rest)),
        Err(e) => Err(e.to_string()),
    }
}

/// `bsatn::from_reader::<i32>`: four bytes, little endian, two's complement.
#[verifier::external_body]
pub(crate) fn read_i32<'a>(bytes: &'a [u8]) -> (r: Result<(i32, &'a [u8]), String>)
    ensures
        r is Ok <==> bytes@.len() >= 4,
        r matches Ok((v, rest)) ==> v == le_u32(bytes@) as i32 && rest@ == bytes@.subrange(4, bytes@.len() as int),
        r matches Err(t) ==> t@ == short_text("i32"@, 4, bytes@.len()),
{
    let mut rest = bytes;
    match bsatn::from_reader::<i32>(&mut rest) {
        Ok(v) => Ok((v, rest)),
        Err(e) => Err(e.to_string()),
    }
}

/// `bsatn::from_reader::<u64>`: eight bytes, little endian.
#[verifier::external_body]
pub(crate) fn read_u64<'a>(bytes: &'a [u8]) -> (r: Result<(u64, &'a [u8]), String>)
    ensures
        r is Ok <==> bytes@.len() >= 8,
        r matches Ok((v, rest)) ==> v == le_u64(bytes@) && rest@ == bytes@.subrange(8, bytes@.len() as int),
        r matches Err(t) ==> t@ == short_text("u64"@, 8, bytes@.len()),
{
    let mut rest = bytes;
    match bsatn::from_reader::<u64>(&mut rest) {
        Ok(v) => Ok((v, rest)),
        Err(e) => Err(e.to_string()),
    }
}

/// `bsatn::from_reader::<bool>`: one byte, `0` or `1`; any other byte is an error.
#[verifier::external_body]
pub(crate) fn read_bool<'a>(bytes: &'a [u8]) -> (r: Result<(bool, &'a [u8]), String>)
    ensures
        r is Ok <==> (bytes@.len() >= 1 && bytes@[0] < 2),
        r matches Ok((v, rest)) ==> v == (bytes@[0] == 1) && rest@ == bytes@.subrange(1, bytes@.len() as int),
        r matches Err(t) ==> t@ == bool_error(bytes@),
{
    let mut rest = bytes;
    match bsatn::from_reader::<bool>(&mut rest) {
        Ok(v) => Ok((v, rest)),
        Err(e) => Err(e.to_string()),
    }
}

/// `bsatn::from_reader::<Vec<u8>>`: a `u32` length, then that many bytes.
#[verifier::external_body]
pub(crate) fn read_bytes<'a>(bytes: &'a [u8]) -> (r: Result<(Vec<u8>, &'a [u8]), String>)
    ensures
        r is Ok <==> prefixed(bytes@) is Some,
        r matches Ok((v, rest)) ==> prefixed(bytes@) == Some((v@, rest@)),
        r matches Err(t) ==> t@ == bytes_error(bytes@),
{
    let mut rest = bytes;
    match bsatn::from_reader::<Vec<u8>>(&mut rest) {
        Ok(v) => Ok((v, rest)),
        Err(e) => Err(e.to_string()),
    }
}

/// `bsatn::from_reader::<String>`: a `u32` length, then that many bytes of UTF-8.
#[verifier::external_body]
pub(crate) fn read_string<'a>(bytes: &'a [u8]) -> (r: Result<(String, &'a [u8]), String>)
    ensures
        r is Ok <==> (prefixed(bytes@) matches Some((p, _)) && valid_utf8(p)),
        r matches Ok((v, rest)) ==> (prefixed(bytes@) matches Some((p, q)) && v@ == decode_utf8(p)
            && rest@ == q),
        r matches Err(t) ==> t@ == string_error(bytes@),
{
    let mut rest = bytes;
    match bsatn::from_reader::<String>(&mut rest) {
        Ok(v) => Ok((v, rest)),
        Err(e) => Err(e.to_string()),
    }
}

/// `bsatn::from_reader::<Identity>`: a 256-bit identity, 32 bytes little
/// endian, returned as those bytes (`Identity::to_byte_array`).
#[verifier::external_body]
pub(crate) fn read_identity<'a>(bytes: &'a [u8]) -> (r: Result<([u8; 32], &'a [u8]), String>)
    ensures
        r is Ok <==> bytes@.len() >= 32,
        r matches Ok((v, rest)) ==> v@ == bytes@.subrange(0, 32) && rest@ == bytes@.subrange(32, bytes@.len() as int),
        r matches Err(t) ==> t@ == short_text("u256"@, 32, bytes@.len()),
{
    let mut rest = bytes;
    match bsatn::from_reader::<spacetimedb_lib::Identity>(&mut rest) {
        Ok(v) => Ok((v.to_byte_array(), rest)),
        Err(e) => Err(e.to_string()),
    }
}

/// The text of the error a derived BSATN decoder gives for a tag past the
/// last variant of `ElementKind` (`DecodeError::InvalidTag`, shown).
#[verifier::external_body]
pub(crate) fn unknown_kind_tag(tag: u8) -> (t: String)
    ensures
        t@ == unknown_kind_text(tag),
{
    bsatn::DecodeError::InvalidTag { tag, sum_name: Some("ElementKind".to_string()) }.to_string()
}

/// A field's decoding error, from the decoder's text for it.
pub(crate) fn field_error(field_name: &str, detail: String) -> (s: String)
    ensures
        s@ == field_message(field_name@, detail@),
{
    let mut s = String::from_str("failed to decode field '");
    s.append(field_name);
    s.append("': ");
    s.append(detail.as_str());
    proof {
        reveal_strlit("failed to decode field '");
        reveal_strlit("': ");
    }
    s
}

/// `bsatn::to_writer` for a `u8`: appends the byte.
#[verifier::external_body]
pub(crate) fn write_u8(buf: &mut Vec<u8>, v: u8)
    ensures
        final(buf)@ == old(buf)@.push(v),
{
    let _ = bsatn::to_writer(buf, &v);
}

/// `bsatn::to_writer` for a `u32`: appends its four little-endian bytes.
#[verifier::external_body]
pub(crate) fn write_u32(buf: &mut Vec<u8>, v: u32)
    ensures
        final(buf)@ == old(buf)@ + spec_u32_to_le_bytes(v),
{
    let _ = bsatn::to_writer(buf, &v);
}

/// `bsatn::to_writer` for a `u64`: appends its eight little-endian bytes.
#[verifier::external_body]
pub(crate) fn write_u64(buf: &mut Vec<u8>, v: u64)
    ensures
        final(buf)@ == old(buf)@ + spec_u64_to_le_bytes(v),
{
    let _ = bsatn::to_writer(buf, &v);
}

/// `bsatn::to_writer` for a byte slice: its length as a `u32`, then the bytes;
/// refused, with nothing written, for more than `u32::MAX` bytes.
#[verifier::external_body]
pub(crate) fn write_bytes(buf: &mut Vec<u8>, v: &[u8]) -> (r: Result<(), bsatn::EncodeError>)
    ensures
        r is Ok <==> v@.len() <= u32::MAX,
        r is Ok ==> final(buf)@ == old(buf)@ + spec_u32_to_le_bytes(v@.len() as u32) + v@,
        r is Err ==> final(buf)@ == old(buf)@,
{
    bsatn::to_writer(buf, v)
}

/// `bsatn::to_writer` for a string: its UTF-8 length as a `u32`, then its
/// UTF-8 bytes; refused, with nothing written, beyond `u32::MAX` bytes.
#[verifier::external_body]
pub(crate) fn write_str(buf: &mut Vec<u8>, v: &str) -> (r: Result<(), bsatn::EncodeError>)
    ensures
        r is Ok <==> encode_utf8(v@).len() <= u32::MAX,
        r is Ok ==> final(buf)@ == old(buf)@ + spec_u32_to_le_bytes(encode_utf8(v@).len() as u32)
            + encode_utf8(v@),
        r is Err ==> final(buf)@ == old(buf)@,
{
    bsatn::to_writer(buf, v)
}

} // verus!
