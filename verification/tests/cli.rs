use libairspy_rs::cli::{parse_u64, strtoull_whole, ParseU64Error};
use libairspy_rs::lib_version;

#[test]
fn parses_decimal_hex_and_binary_like_c_parse_u64() {
    assert_eq!(parse_u64("644064DC"), Err(ParseU64Error));
    assert_eq!(parse_u64("12345"), Ok(12345));
    assert_eq!(parse_u64("0x644064DC"), Ok(0x6440_64DC));
    assert_eq!(parse_u64("0X644064DC"), Ok(0x6440_64DC));
    assert_eq!(parse_u64("0b1010"), Ok(10));
    assert_eq!(parse_u64("0B1010"), Ok(10));
}

#[test]
fn requires_full_string_consumption() {
    assert_eq!(parse_u64("123abc"), Err(ParseU64Error));
    assert_eq!(parse_u64("0x12ZZ"), Err(ParseU64Error));
    assert_eq!(parse_u64(""), Err(ParseU64Error));
    assert_eq!(parse_u64("0x"), Err(ParseU64Error));
}

#[test]
fn inherits_strtoull_semantics_after_prefix_detection() {
    assert_eq!(parse_u64(" 10"), Ok(10));
    assert_eq!(parse_u64("+10"), Ok(10));
    assert_eq!(parse_u64("-1"), Ok(u64::MAX));
    assert_eq!(parse_u64("99999999999999999999999"), Ok(u64::MAX));
    assert_eq!(parse_u64("0x0x10"), Ok(0x10));
    assert_eq!(parse_u64(" 0x10"), Err(ParseU64Error));
}

#[test]
fn short_strings_skip_prefix_detection() {
    assert_eq!(parse_u64("0b"), Err(ParseU64Error));
    assert_eq!(parse_u64("42"), Ok(42));
}

#[test]
fn lib_version_matches_crate_version() {
    let v = lib_version();
    assert_eq!(format!("{}.{}.{}", v.major, v.minor, v.revision), "0.2.1");
}

#[test]
fn strtoull_handles_signs_spaces_and_bases() {
    assert_eq!(strtoull_whole(b"\t\n 17", 10), Some(17));
    assert_eq!(strtoull_whole(b"-0", 10), Some(0));
    assert_eq!(strtoull_whole(b"-2", 10), Some(u64::MAX - 1));
    assert_eq!(strtoull_whole(b"ff", 16), Some(255));
    assert_eq!(strtoull_whole(b"0x", 16), None);
    assert_eq!(strtoull_whole(b"2", 2), None);
    assert_eq!(strtoull_whole(b"18446744073709551615", 10), Some(u64::MAX));
    assert_eq!(strtoull_whole(b"18446744073709551616", 10), Some(u64::MAX));
    assert_eq!(strtoull_whole(b"-18446744073709551616", 10), Some(u64::MAX));
    assert_eq!(strtoull_whole(b"+-1", 10), None);
}

#[test]
fn parse_error_prints_c_code() {
    assert_eq!(ParseU64Error.message(), "AIRSPY_ERROR_INVALID_PARAM (-2)");
}
