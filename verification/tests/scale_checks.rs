//! The wire encodings against the reference codec and their own decoders.

use bridge_relay::scale::{
    decode_compact, decode_u64_le, encode_bytes, encode_compact_u128, encode_compact_u32,
    encode_compact_u64, encode_u128, encode_u32, encode_u64,
};
use parity_scale_codec::{Compact, Encode};

fn compact128(v: u128) -> Vec<u8> {
    let mut out = Vec::new();
    encode_compact_u128(v, &mut out);
    out
}

#[test]
fn compact_encoding_matches_reference_codec() {
    let values: [u128; 14] = [
        0,
        1,
        42,
        63,
        64,
        16383,
        16384,
        0x3fffffff,
        0x40000000,
        u32::MAX as u128,
        u64::MAX as u128 - 1,
        u64::MAX as u128,
        u128::MAX - 7,
        u128::MAX,
    ];
    for v in values {
        assert_eq!(compact128(v), Compact(v).encode(), "value {}", v);
    }
}

#[test]
fn compact_u32_and_u64_agree_with_reference_codec() {
    for v in [0u32, 63, 64, 16383, 16384, 0x40000000, u32::MAX] {
        let mut out = Vec::new();
        encode_compact_u32(v, &mut out);
        assert_eq!(out, Compact(v).encode());
    }
    for v in [0u64, 63, 16384, 0x40000000, u64::MAX] {
        let mut out = Vec::new();
        encode_compact_u64(v, &mut out);
        assert_eq!(out, Compact(v).encode());
    }
}

#[test]
fn fixed_width_encodings_match_reference_codec() {
    for v in [0u32, 1, 0xdeadbeef, u32::MAX] {
        let mut out = Vec::new();
        encode_u32(v, &mut out);
        assert_eq!(out, v.encode());
    }
    for v in [0u64, 7, 0x0123456789abcdef, u64::MAX] {
        let mut out = Vec::new();
        encode_u64(v, &mut out);
        assert_eq!(out, v.encode());
    }
    for v in [0u128, 1_000_000_000_000_000_000, u128::MAX] {
        let mut out = Vec::new();
        encode_u128(v, &mut out);
        assert_eq!(out, v.encode());
    }
}

#[test]
fn byte_string_encoding_matches_reference_codec() {
    let data: Vec<u8> = vec![1, 2, 3, 4, 5];
    let mut out = Vec::new();
    encode_bytes(&data, &mut out);
    assert_eq!(out, data.encode());
}

#[test]
fn compact_decode_round_trips() {
    let values: [u128; 10] =
        [0, 63, 64, 16383, 16384, 0x3fffffff, 0x40000000, u64::MAX as u128, u128::MAX - 1, u128::MAX];
    for v in values {
        let enc = compact128(v);
        let decoded = decode_compact(&enc, 0);
        assert_eq!(decoded, Some((v, enc.len())), "value {}", v);
    }
}

#[test]
fn compact_decode_rejects_non_minimal_encodings() {
    // the value 5 written in two-byte mode
    assert_eq!(decode_compact(&vec![0x15, 0x00], 0), None);
    // a small value written in four-byte mode
    assert_eq!(decode_compact(&vec![0x16, 0x00, 0x00, 0x00], 0), None);
    // big-integer mode with a zero top byte
    assert_eq!(decode_compact(&vec![0x03, 0x01, 0x00, 0x00, 0x00], 0), None);
    // big-integer mode for a value that fits four-byte mode is still decoded
    // only if its top byte is informative and it exceeds the smaller modes
    assert_eq!(decode_compact(&vec![0x03, 0x00, 0x00, 0x00, 0x40], 0), Some((0x40000000, 5)));
}

#[test]
fn compact_decode_rejects_truncated_input() {
    assert_eq!(decode_compact(&vec![], 0), None);
    assert_eq!(decode_compact(&vec![0x01], 0), None);
    assert_eq!(decode_compact(&vec![0x03, 0x01, 0x02], 0), None);
}

#[test]
fn u64_le_decode_round_trips() {
    for v in [0u64, 1, 0xdead, u64::MAX] {
        let mut enc = Vec::new();
        encode_u64(v, &mut enc);
        assert_eq!(decode_u64_le(&enc, 0), v);
    }
}
