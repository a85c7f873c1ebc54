//! Tests for the driver classification table.

use serial_enumerator::drivers_table::DriverClass;
use serial_enumerator::get_serial_prefix;

#[test]
fn fallback_table_on_unreadable_stream() {
    let table = get_serial_prefix(None);
    assert_eq!(table.len(), 7);
    // at minimum one generic-UART entry and one USB-serial-adapter entry
    assert!(table.iter().any(|e| e.prefix == "ttyS" && e.class == DriverClass::Serial));
    assert!(table.iter().any(|e| e.prefix == "ttyUSB" && e.class == DriverClass::UsbSerial));
    assert!(table.iter().any(|e| e.prefix == "ttyAMA" && e.class == DriverClass::BuiltinOrOther));
}

#[test]
fn table_from_readable_stream() {
    let text = "/dev/tty             /dev/tty        5       0 system:/dev/tty\n\
                serial               /dev/ttyS       4 64-111 serial\n\
                usbserial            /dev/ttyUSB   188 0-511 serial\n\
                pty_slave            /dev/pts      136 0-1048575 pty:slave\n";
    let table = get_serial_prefix(Some(text));
    assert_eq!(table.len(), 2);
    assert_eq!(table[0].prefix, "ttyS");
    assert_eq!(table[0].class, DriverClass::Serial);
    assert_eq!(table[1].prefix, "ttyUSB");
    assert_eq!(table[1].class, DriverClass::UsbSerial);
}

#[test]
fn table_duplicate_prefix_last_write_wins() {
    let text = "serial /dev/ttyS 4 serial\nusbserial /dev/ttyS 188 serial\n";
    let table = get_serial_prefix(Some(text));
    assert_eq!(table.len(), 1);
    assert_eq!(table[0].prefix, "ttyS");
    assert_eq!(table[0].class, DriverClass::UsbSerial);
}

#[test]
fn table_unrecognized_class_token_maps_to_other() {
    let text = "goldfish_tty /dev/ttyGF 232 serial\n";
    let table = get_serial_prefix(Some(text));
    assert_eq!(table.len(), 1);
    assert_eq!(table[0].prefix, "ttyGF");
    assert_eq!(table[0].class, DriverClass::BuiltinOrOther);
}

#[test]
fn table_empty_stream_gives_empty_table() {
    let table = get_serial_prefix(Some(""));
    assert_eq!(table.len(), 0);
}
