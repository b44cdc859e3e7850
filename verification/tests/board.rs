use libairspy_rs::board::{parse_version, PartIdSerial, PARTID_SERIALNO_LEN, VERSION_LOCAL_SIZE};

#[test]
fn version_buffer_size_matches_c() {
    assert_eq!(VERSION_LOCAL_SIZE, 128);
}

#[test]
fn version_string_stops_at_first_nul() {
    assert_eq!(
        parse_version(b"AirSpy NOS v1.0.0-rc10\0\0\0\0"),
        "AirSpy NOS v1.0.0-rc10"
    );
    assert_eq!(parse_version(b""), "");
    assert_eq!(parse_version(b"\0garbage after nul"), "");
    assert_eq!(parse_version(b"no nul at all"), "no nul at all");
}

#[test]
fn version_string_is_lossy_for_non_utf8() {
    assert_eq!(parse_version(&[0x41, 0xFF, 0x42]), "A\u{FFFD}B");
}

#[test]
fn partid_serialno_parses_little_endian_words() {
    let mut raw = [0u8; PARTID_SERIALNO_LEN];
    raw[0..4].copy_from_slice(&0x1234_5678u32.to_le_bytes());
    raw[4..8].copy_from_slice(&0x9ABC_DEF0u32.to_le_bytes());
    raw[8..12].copy_from_slice(&0x0000_0001u32.to_le_bytes());
    raw[12..16].copy_from_slice(&0x0000_0002u32.to_le_bytes());
    raw[16..20].copy_from_slice(&0x0000_0003u32.to_le_bytes());
    raw[20..24].copy_from_slice(&0x0000_0004u32.to_le_bytes());
    let parsed = PartIdSerial::from_le_bytes(&raw);
    assert_eq!(parsed.part_id, [0x1234_5678, 0x9ABC_DEF0]);
    assert_eq!(parsed.serial_no, [1, 2, 3, 4]);
}

#[test]
fn partid_serialno_len_matches_c_struct() {
    assert_eq!(PARTID_SERIALNO_LEN, 24);
}
