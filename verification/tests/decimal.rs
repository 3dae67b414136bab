use soundpad_remote_client::decimal::{parse_i32, parse_u64, parse_u8, u64_digits};

#[test]
fn digits_of_small_and_large_numbers() {
    assert_eq!(b"0".to_vec(), u64_digits(0));
    assert_eq!(b"7".to_vec(), u64_digits(7));
    assert_eq!(b"12345".to_vec(), u64_digits(12345));
    assert_eq!(b"18446744073709551615".to_vec(), u64_digits(u64::MAX));
}

#[test]
fn unsigned_parsing_matches_the_standard_parser() {
    for text in ["0", "12", "+31", "", "+", "x12", "12x", "999999999999999999999", "-3"] {
        assert_eq!(text.parse::<u64>().ok(), parse_u64(text.as_bytes()), "on {text:?}");
        assert_eq!(text.parse::<u8>().ok(), parse_u8(text.as_bytes()), "on {text:?}");
    }
    assert_eq!(Some(u64::MAX), parse_u64(b"18446744073709551615"));
    assert_eq!(None, parse_u64(b"18446744073709551616"));
}

#[test]
fn signed_parsing_matches_the_standard_parser() {
    for text in ["0", "-14", "+31", "-", "", "2147483647", "2147483648", "-2147483648", "-2147483649"] {
        assert_eq!(text.parse::<i32>().ok(), parse_i32(text.as_bytes()), "on {text:?}");
    }
}
