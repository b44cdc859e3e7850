use libairspy_rs::flash_cli::{
    parse_flash_u32, transfer_chunks, validate_range, FlashRangeError, MAX_LENGTH,
};

#[test]
fn max_length_matches_c_define() {
    assert_eq!(MAX_LENGTH, 0x0010_0000);
}

#[test]
fn chunks_walk_the_range_in_256_byte_transfers() {
    let chunks: Vec<(u32, u16)> = transfer_chunks(0x100, 600);
    assert_eq!(chunks, [(0x100, 256), (0x200, 256), (0x300, 88)]);
    let chunks: Vec<(u32, u16)> = transfer_chunks(0, 256);
    assert_eq!(chunks, [(0, 256)]);
    assert_eq!(transfer_chunks(5, 0).len(), 0);
}

#[test]
fn range_validation_covers_c_checks_and_the_address_fix() {
    assert_eq!(validate_range(0, 0), Err(FlashRangeError::ZeroLength));
    assert_eq!(validate_range(0, MAX_LENGTH), Ok(()));
    assert_eq!(validate_range(1, MAX_LENGTH), Err(FlashRangeError::ExceedsFlash));
    assert_eq!(
        validate_range(0x000F_0000, 0x0002_0000),
        Err(FlashRangeError::ExceedsFlash)
    );
    assert_eq!(validate_range(0x000F_0000, 0x0001_0000), Ok(()));
    assert_eq!(validate_range(u32::MAX, u32::MAX), Err(FlashRangeError::ExceedsFlash));
}

#[test]
fn flash_numbers_refuse_truncation() {
    assert_eq!(parse_flash_u32("0x1000"), Ok(0x1000));
    assert_eq!(parse_flash_u32("4294967295"), Ok(u32::MAX));
    assert!(parse_flash_u32("0x100000000").is_err());
    assert!(parse_flash_u32("x").is_err());
}
