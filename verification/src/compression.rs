//! Undoing the compression SpacetimeDB may apply to each server message: a
//! leading tag byte says whether the rest is plain, brotli or gzip.
use spacetimedb_client_api_messages::websocket::common;
use std::io::Read;
use vstd::prelude::*;
use vstd::slice::slice_subrange;
use vstd::slice::slice_to_vec;
use vstd::string::*;

use crate::color::{hex_nibble, nibble_char};
use crate::text::push_char;

verus! {

/// The tag of an uncompressed server message (`SERVER_MSG_COMPRESSION_TAG_NONE`).
#[verifier::external_body]
pub(crate) fn tag_none() -> (t: u8)
    ensures
        t == 0,
{
    common::SERVER_MSG_COMPRESSION_TAG_NONE
}

/// The tag of a brotli-compressed server message (`SERVER_MSG_COMPRESSION_TAG_BROTLI`).
#[verifier::external_body]
pub(crate) fn tag_brotli() -> (t: u8)
    ensures
        t == 1,
{
    common::SERVER_MSG_COMPRESSION_TAG_BROTLI
}

/// The tag of a gzip-compressed server message (`SERVER_MSG_COMPRESSION_TAG_GZIP`).
#[verifier::external_body]
pub(crate) fn tag_gzip() -> (t: u8)
    ensures
        t == 2,
{
    common::SERVER_MSG_COMPRESSION_TAG_GZIP
}

/// What brotli decompression of a byte string gives: the bytes, or the text
/// of its error.
pub uninterp spec fn brotli_output(input: Seq<u8>) -> Result<Seq<u8>, Seq<char>>;

/// What reading a gzip byte string to its end gives: the bytes, or the text
/// of its error.
pub uninterp spec fn gzip_output(input: Seq<u8>) -> Result<Seq<u8>, Seq<char>>;

/// `brotli::BrotliDecompress` of the whole input into a fresh buffer, its
/// error shown as text.
#[verifier::external_body]
fn brotli_decompress(input: &[u8]) -> (r: Result<Vec<u8>, String>)
    ensures
        r matches Ok(v) ==> (brotli_output(input@) matches Ok(x) && x == v@),
        r matches Err(t) ==> (brotli_output(input@) matches Err(x) && x == t@),
{
    let mut decompressed = Vec::new();
    match brotli::BrotliDecompress(&mut &input[..], &mut decompressed) {
        Ok(()) => Ok(decompressed),
        Err(e) => Err(e.to_string()),
    }
}

/// `flate2::read::GzDecoder` over the input, read to its end into a fresh
/// buffer, its error shown as text.
#[verifier::external_body]
fn gzip_decompress(input: &[u8]) -> (r: Result<Vec<u8>, String>)
    ensures
        r matches Ok(v) ==> (gzip_output(input@) matches Ok(x) && x == v@),
        r matches Err(t) ==> (gzip_output(input@) matches Err(x) && x == t@),
{
    let mut decompressed = Vec::new();
    match flate2::read::GzDecoder::new(input).read_to_end(&mut decompressed) {
        Ok(_) => Ok(decompressed),
        Err(e) => Err(e.to_string()),
    }
}

/// The text of a decoder failure: `prefix` followed by the decoder's text.
fn decoder_failure(prefix: &str, detail: String) -> (s: String)
    ensures
        s@ == prefix@ + detail@,
{
    let mut s = String::from_str(prefix);
    s.append(detail.as_str());
    s
}

/// A byte in `{:#x}` form: `0x` and its hexadecimal digits, no leading zero.
pub open spec fn hex_literal(v: u8) -> Seq<char> {
    if v < 16 {
        seq!['0', 'x', hex_nibble(v as nat)]
    } else {
        seq!['0', 'x', hex_nibble((v / 16) as nat), hex_nibble((v % 16) as nat)]
    }
}

fn push_nibble(s: &mut String, v: u8)
    requires
        v < 16,
    ensures
        final(s)@ == old(s)@.push(hex_nibble(v as nat)),
{
    push_char(s, nibble_char(v as u32));
}

/// What a server message holds once its compression is undone.
pub open spec fn spec_decompressed(raw: Seq<u8>) -> Result<Seq<u8>, Seq<char>> {
    if raw.len() == 0 {
        Err("empty server message"@)
    } else if raw[0] == 0 {
        Ok(raw.subrange(1, raw.len() as int))
    } else if raw[0] == 1 {
        match brotli_output(raw.subrange(1, raw.len() as int)) {
            Ok(v) => Ok(v),
            Err(t) => Err("brotli decompress: "@ + t),
        }
    } else if raw[0] == 2 {
        match gzip_output(raw.subrange(1, raw.len() as int)) {
            Ok(v) => Ok(v),
            Err(t) => Err("gzip decompress: "@ + t),
        }
    } else {
        Err("unknown compression tag: "@ + hex_literal(raw[0]))
    }
}

/// Undoes the compression of a raw server message: the result, bytes or
/// error text, is exactly [`spec_decompressed`].
pub fn decompress_server_message(raw: &[u8]) -> (r: Result<Vec<u8>, String>)
    ensures
        match spec_decompressed(raw@) {
            Ok(v) => r matches Ok(w) && w@ == v,
            Err(m) => r matches Err(e) && e@ == m,
        },
{
    if raw.len() == 0 {
        return Err(String::from_str("empty server message"));
    }
    let tag = raw[0];
    let bytes = slice_subrange(raw, 1, raw.len());
    if tag == tag_none() {
        Ok(slice_to_vec(bytes))
    } else if tag == tag_brotli() {
        match brotli_decompress(bytes) {
            Ok(v) => Ok(v),
            Err(e) => Err(decoder_failure("brotli decompress: ", e)),
        }
    } else if tag == tag_gzip() {
        match gzip_decompress(bytes) {
            Ok(v) => Ok(v),
            Err(e) => Err(decoder_failure("gzip decompress: ", e)),
        }
    } else {
        let mut msg = String::from_str("unknown compression tag: 0x");
        if tag < 16 {
            push_nibble(&mut msg, tag);
        } else {
            push_nibble(&mut msg, tag / 16);
            push_nibble(&mut msg, tag % 16);
        }
        proof {
            reveal_strlit("unknown compression tag: 0x");
            reveal_strlit("unknown compression tag: ");
            assert(msg@ =~= "unknown compression tag: "@ + hex_literal(tag));
        }
        Err(msg)
    }
}

} // verus!
