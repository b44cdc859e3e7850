use libairspy_rs::device::{parse_serial, AIRSPY_USB_PID, AIRSPY_USB_VID, SERIAL_EXPECTED_LEN, SERIAL_PREFIX_LEN};

#[test]
fn usb_ids_match_c_constants() {
    assert_eq!(AIRSPY_USB_VID, 0x1d50);
    assert_eq!(AIRSPY_USB_PID, 0x60a1);
    assert_eq!((SERIAL_PREFIX_LEN, SERIAL_EXPECTED_LEN), (10, 26));
}

#[test]
fn parses_wellformed_serial_descriptor() {
    assert_eq!(parse_serial("AIRSPY SN:0123456789ABCDEF"), Some(0x0123_4567_89AB_CDEF));
    assert_eq!(parse_serial("AIRSPY SN:00000000644064DC"), Some(0x6440_64DC));
    assert_eq!(parse_serial("AIRSPY SN:00000000644064dc"), Some(0x6440_64DC));
}

#[test]
fn rejects_serial_with_wrong_length() {
    assert_eq!(parse_serial("AIRSPY SN:123"), None);
    assert_eq!(parse_serial(""), None);
    assert_eq!(parse_serial("AIRSPY SN:0123456789ABCDEF0"), None);
}

#[test]
fn rejects_serial_with_no_hex_digits() {
    assert_eq!(parse_serial("AIRSPY SN:ZZZZZZZZZZZZZZZZ"), None);
}

#[test]
fn accepts_partial_hex_like_strtoull() {
    assert_eq!(parse_serial("AIRSPY SN:12ZZZZZZZZZZZZZZ"), Some(0x12));
}

#[test]
fn zero_serial_parses_as_zero() {
    assert_eq!(parse_serial("AIRSPY SN:0000000000000000"), Some(0));
}

#[test]
fn largest_serial_fits() {
    assert_eq!(parse_serial("AIRSPY SN:FFFFFFFFFFFFFFFF"), Some(u64::MAX));
}
