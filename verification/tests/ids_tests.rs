use nimble::ids::{format_id, parse_id};

#[test]
fn formats_zero() {
    assert_eq!(format_id(0), "00000000-0000-0000-0000-000000000000");
}

#[test]
fn formats_max() {
    assert_eq!(format_id(u128::MAX), "ffffffff-ffff-ffff-ffff-ffffffffffff");
}

#[test]
fn formats_known_value() {
    let id: u128 = 0x0123456789abcdef0123456789abcdef;
    assert_eq!(format_id(id), "01234567-89ab-cdef-0123-456789abcdef");
}

#[test]
fn parses_canonical_form() {
    assert_eq!(
        parse_id("01234567-89ab-cdef-0123-456789abcdef"),
        Some(0x0123456789abcdef0123456789abcdefu128)
    );
}

#[test]
fn round_trips() {
    for id in [0u128, 1, 42, u128::MAX, 0xdeadbeefdeadbeefdeadbeefdeadbeef] {
        assert_eq!(parse_id(&format_id(id)), Some(id));
    }
}

#[test]
fn rejects_wrong_length() {
    assert_eq!(parse_id("0123"), None);
    assert_eq!(parse_id(""), None);
}

#[test]
fn rejects_misplaced_hyphens() {
    assert_eq!(parse_id("012345678-9ab-cdef-0123-456789abcdef"), None);
}

#[test]
fn rejects_non_hex_digits() {
    assert_eq!(parse_id("0123456g-89ab-cdef-0123-456789abcdef"), None);
}

#[test]
fn rejects_uppercase() {
    assert_eq!(parse_id("01234567-89AB-cdef-0123-456789abcdef"), None);
}
