//! Tests for the text helpers.

use serial_enumerator::strutil::get_file_name;
use serial_enumerator::strutil::normalize_attr;
use serial_enumerator::strutil::split_lines;

#[test]
fn split_lines_variants() {
    assert_eq!(split_lines(""), Vec::<String>::new());
    assert_eq!(split_lines("one"), vec!["one".to_string()]);
    assert_eq!(split_lines("one\ntwo\n"), vec!["one".to_string(), "two".to_string()]);
    assert_eq!(split_lines("one\ntwo"), vec!["one".to_string(), "two".to_string()]);
    assert_eq!(split_lines("a\r\nb\r\n"), vec!["a".to_string(), "b".to_string()]);
    assert_eq!(split_lines("a\n\nb"), vec!["a".to_string(), "".to_string(), "b".to_string()]);
    // a carriage return not followed by a newline stays
    assert_eq!(split_lines("a\rb"), vec!["a\rb".to_string()]);
}

#[test]
fn normalize_attr_first_line_only() {
    assert_eq!(normalize_attr("wch.cn\n"), Some("wch.cn".to_string()));
    assert_eq!(normalize_attr("first\nsecond\n"), Some("first".to_string()));
    assert_eq!(normalize_attr("bare"), Some("bare".to_string()));
    assert_eq!(normalize_attr(""), None);
    assert_eq!(normalize_attr("\nrest"), Some("".to_string()));
}

#[test]
fn normalize_attr_replaces_nul() {
    assert_eq!(normalize_attr("arm,pl011\0arm,primecell\0\n"), Some("arm,pl011;arm,primecell;".to_string()));
}

#[test]
fn get_file_name_variants() {
    assert_eq!(get_file_name("/sys/bus/usb-serial/drivers/ch341-uart"), Some("ch341-uart".to_string()));
    assert_eq!(get_file_name("plain"), Some("plain".to_string()));
    assert_eq!(get_file_name("/"), None);
    assert_eq!(get_file_name(""), None);
    assert_eq!(get_file_name("a/b/"), None);
}
