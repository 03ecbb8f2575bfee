use twinpane::sizes::{format_bytes, readableBytes};
use twinpane::text::{chars_of, decimal_string, string_of};

#[test]
fn readable_bytes_below_a_kilobyte_is_plain() {
    assert_eq!(readableBytes(0), "0B");
    assert_eq!(readableBytes(1), "1B");
    assert_eq!(readableBytes(512), "512B");
    assert_eq!(readableBytes(1023), "1023B");
}

#[test]
fn readable_bytes_uses_largest_unit() {
    assert_eq!(readableBytes(1024), "1.00KB");
    assert_eq!(readableBytes(1536), "1.50KB");
    assert_eq!(readableBytes(1048576), "1.00MB");
    assert_eq!(readableBytes(21111024), "20.13MB");
    assert_eq!(readableBytes(1073741824), "1.00GB");
    assert_eq!(readableBytes(1099511627776), "1.00TB");
}

#[test]
fn readable_bytes_rounds_half_to_even() {
    // 1152 / 1024 = 1.125 exactly
    assert_eq!(readableBytes(1152), "1.12KB");
    // 1160 / 1024 = 1.1328...
    assert_eq!(readableBytes(1160), "1.13KB");
    // 1048575 / 1024 = 1023.999...
    assert_eq!(readableBytes(1048575), "1024.00KB");
}

#[test]
fn readable_bytes_largest_count() {
    assert_eq!(readableBytes(usize::MAX), "16.00EB");
}

#[test]
fn size_column_always_has_two_decimals() {
    assert_eq!(format_bytes(0, true), "0.00B");
    assert_eq!(format_bytes(512, true), "512.00B");
    assert_eq!(format_bytes(1536, true), "1.50KB");
    assert_eq!(format_bytes(512, false), "512B");
}

#[test]
fn decimal_strings() {
    assert_eq!(decimal_string(0), "0");
    assert_eq!(decimal_string(7), "7");
    assert_eq!(decimal_string(1234567890), "1234567890");
    assert_eq!(decimal_string(u64::MAX), "18446744073709551615");
}

#[test]
fn chars_roundtrip() {
    let v = chars_of("zażółć/x");
    assert_eq!(v.len(), 8);
    assert_eq!(string_of(&v), "zażółć/x");
}
