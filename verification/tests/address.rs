use http_server::address::parse_dotted_quad;
use http_server::address::socket_address;

#[test]
fn loopback_address() {
    assert_eq!(parse_dotted_quad("127.0.0.1"), Some([127, 0, 0, 1]));
    assert_eq!(socket_address([127, 0, 0, 1]), u32::from_le_bytes([127, 0, 0, 1]));
    assert_eq!(socket_address([127, 0, 0, 1]), 0x0100007f);
}

#[test]
fn four_parts_are_needed() {
    assert_eq!(parse_dotted_quad(""), None);
    assert_eq!(parse_dotted_quad("127.0.0"), None);
    assert_eq!(parse_dotted_quad("127.0.0.1.5"), None);
    assert_eq!(parse_dotted_quad("1.2.3.4."), None);
    assert_eq!(parse_dotted_quad("localhost"), None);
    assert_eq!(parse_dotted_quad("..."), Some([0, 0, 0, 0]));
}

#[test]
fn parts_that_are_no_byte_count_as_zero() {
    assert_eq!(parse_dotted_quad("256.1.2.3"), Some([0, 1, 2, 3]));
    assert_eq!(parse_dotted_quad("a.b.c.d"), Some([0, 0, 0, 0]));
    assert_eq!(parse_dotted_quad("1. 2.3.4"), Some([1, 0, 3, 4]));
    assert_eq!(parse_dotted_quad("-1.2.3.4"), Some([0, 2, 3, 4]));
    assert_eq!(parse_dotted_quad("+.2.3.4"), Some([0, 2, 3, 4]));
    assert_eq!(parse_dotted_quad("1.2.3.99999999999999999999999"), Some([1, 2, 3, 0]));
    assert_eq!(parse_dotted_quad("1.2.3.4x"), Some([1, 2, 3, 0]));
    assert_eq!(parse_dotted_quad("1.2.3.\u{663}"), Some([1, 2, 3, 0]));
}

#[test]
fn numerals_may_carry_a_plus_sign_and_leading_zeros() {
    assert_eq!(parse_dotted_quad("+10.010.0000000255.0"), Some([10, 10, 255, 0]));
    assert_eq!(parse_dotted_quad("255.255.255.255"), Some([255, 255, 255, 255]));
    assert_eq!(parse_dotted_quad("++1.2.3.4"), Some([0, 2, 3, 4]));
}

#[test]
fn parts_are_read_as_the_standard_library_reads_a_byte() {
    for part in ["0", "7", "42", "255", "256", "+5", "+", "", "-0", "0x10", "1e2", " 1", "001", "999"] {
        let address = format!("{}.1.1.1", part);
        let expected: u8 = part.parse().unwrap_or(0);
        assert_eq!(parse_dotted_quad(&address), Some([expected, 1, 1, 1]), "{:?}", part);
    }
}

#[test]
fn socket_address_is_little_endian() {
    assert_eq!(socket_address([0, 0, 0, 0]), 0);
    assert_eq!(socket_address([255, 255, 255, 255]), u32::MAX);
    assert_eq!(socket_address([1, 2, 3, 4]), 0x04030201);
    assert_eq!(socket_address([192, 168, 1, 20]), u32::from_le_bytes([192, 168, 1, 20]));
}
