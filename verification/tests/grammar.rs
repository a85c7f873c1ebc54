//! Tests for the two identifier grammars.

use serial_enumerator::parse_device_id;
use serial_enumerator::parse_line;

#[test]
fn linux_test_drivers_line_parse() {
    let result = parse_line("serial               /dev/ttyS       4 64-111 serial").unwrap();
    assert_eq!(result, ("serial".into(), "ttyS".into()));
}

#[test]
fn win_test_drivers_line_parse() {
    let result = parse_device_id(r"USB\VID_1A86&PID_7523\7&139F9FFA&0&2").unwrap();
    assert_eq!(result, ("1A86".into(), "7523".into()));
}

#[test]
fn line_not_ending_in_serial_never_matches() {
    assert_eq!(parse_line(""), None);
    assert_eq!(parse_line("usbserial            /dev/ttyUSB   188 0-511"), None);
    assert_eq!(parse_line("pty_slave            /dev/pts      136 0-1048575 pty:slave"), None);
    assert_eq!(parse_line("serial /dev/ttyS serial "), None);
}

#[test]
fn line_variants() {
    assert_eq!(
        parse_line("usbserial            /dev/ttyUSB   188 0-511 serial"),
        Some(("usbserial".into(), "ttyUSB".into()))
    );
    // the device prefix may stand anywhere after the class token
    assert_eq!(
        parse_line("serial x /dev/ttyS 4 serial"),
        Some(("serial".into(), "ttyS".into()))
    );
    // no /dev/ marker after the class token
    assert_eq!(parse_line("serial 4 64-111 serial"), None);
    // nothing follows the /dev/ marker
    assert_eq!(parse_line("serial /dev/ serial"), None);
    // the line is the suffix alone: the class token swallows the whole line
    assert_eq!(parse_line("serial"), None);
}

#[test]
fn device_id_ftdi_prefix() {
    let result = parse_device_id(r"FTDIBUS\VID_0403&PID_6010\instance").unwrap();
    assert_eq!(result, ("0403".into(), "6010".into()));
}

#[test]
fn device_id_preserves_case() {
    let result = parse_device_id(r"USB\VID_1a86&PID_7523\x").unwrap();
    assert_eq!(result, ("1a86".into(), "7523".into()));
}

#[test]
fn device_id_missing_pid_literal() {
    assert_eq!(parse_device_id(r"USB\VID_1A86&PXD_7523\x"), None);
    assert_eq!(parse_device_id(r"USB\VID_1A86&7523\x"), None);
}

#[test]
fn device_id_wrong_digit_count() {
    // 3 hex digits
    assert_eq!(parse_device_id(r"USB\VID_1A8&PID_7523\x"), None);
    assert_eq!(parse_device_id(r"USB\VID_1A86&PID_752\x"), None);
    // 5 hex digits
    assert_eq!(parse_device_id(r"USB\VID_1A865&PID_7523\x"), None);
    assert_eq!(parse_device_id(r"USB\VID_1A86&PID_75234\x"), None);
}

#[test]
fn device_id_malformed() {
    assert_eq!(parse_device_id(""), None);
    assert_eq!(parse_device_id(r"PCI\VEN_8086&DEV_1234\x"), None);
    // wrong bus literal
    assert_eq!(parse_device_id(r"USBX\VID_1A86&PID_7523\x"), None);
    // missing the closing delimiter after the product ID
    assert_eq!(parse_device_id(r"USB\VID_1A86&PID_7523"), None);
    // missing the delimiter before VID_
    assert_eq!(parse_device_id(r"USBVID_1A86&PID_7523\x"), None);
    // non-hex digits
    assert_eq!(parse_device_id(r"USB\VID_1G86&PID_7523\x"), None);
}
