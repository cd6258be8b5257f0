use std::io::{Read, Write};

use collaborate::compression::decompress_server_message;

#[test]
fn plain_message_is_passed_through() {
    assert_eq!(decompress_server_message(&[0, 1, 2, 3]), Ok(vec![1, 2, 3]));
    assert_eq!(decompress_server_message(&[0]), Ok(vec![]));
}

#[test]
fn empty_message_is_refused() {
    assert_eq!(decompress_server_message(&[]), Err("empty server message".to_string()));
}

#[test]
fn unknown_tag_is_refused_in_hex() {
    assert_eq!(decompress_server_message(&[7, 1]), Err("unknown compression tag: 0x7".to_string()));
    assert_eq!(decompress_server_message(&[0xAB]), Err(format!("unknown compression tag: {:#x}", 0xABu8)));
}

#[test]
fn gzip_message_is_inflated() {
    let payload = b"hello gzip".to_vec();
    let mut enc = flate2::write::GzEncoder::new(Vec::new(), flate2::Compression::default());
    enc.write_all(&payload).unwrap();
    let mut raw = vec![2u8];
    raw.extend(enc.finish().unwrap());
    assert_eq!(decompress_server_message(&raw), Ok(payload));
}

#[test]
fn brotli_message_is_inflated() {
    let payload = b"hello brotli, hello brotli".to_vec();
    let mut compressed = Vec::new();
    {
        let mut w = brotli::CompressorWriter::new(&mut compressed, 4096, 5, 22);
        w.write_all(&payload).unwrap();
    }
    let mut raw = vec![1u8];
    raw.extend(compressed);
    assert_eq!(decompress_server_message(&raw), Ok(payload));
}

#[test]
fn corrupt_gzip_is_reported() {
    let err = decompress_server_message(&[2, 1, 2, 3]).unwrap_err();
    assert!(err.starts_with("gzip decompress: "));
}

#[test]
fn corrupt_brotli_is_reported_with_the_decoder_text() {
    let err = decompress_server_message(&[1, 0xFF, 0xFF, 0xFF, 0xFF]).unwrap_err();
    assert!(err.starts_with("brotli decompress: "));
    assert!(err.len() > "brotli decompress: ".len());
}

#[test]
fn decoder_error_texts_follow_their_prefixes() {
    let input = [0xFFu8, 0xFF, 0xFF, 0xFF];
    let mut out = Vec::new();
    let e = brotli::BrotliDecompress(&mut &input[..], &mut out).unwrap_err();
    assert_eq!(decompress_server_message(&[1, 0xFF, 0xFF, 0xFF, 0xFF]).unwrap_err(), format!("brotli decompress: {e}"));
    let gz = [1u8, 2, 3];
    let mut out = Vec::new();
    let e = flate2::read::GzDecoder::new(&gz[..]).read_to_end(&mut out).unwrap_err();
    assert_eq!(decompress_server_message(&[2, 1, 2, 3]).unwrap_err(), format!("gzip decompress: {e}"));
}
