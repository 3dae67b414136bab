use soundpad_remote_client::parse_or::{ParseOr, ParseOrDefault};

#[test]
fn parse_num() {
    assert_eq!(12, "12".parse_or(0u64));
    assert_eq!(31, "NaN".parse_or(31u64))
}

#[test]
fn parse_num_default() {
    assert_eq!(12u64, "12".parse_or_default());
    assert_eq!(0u64, "NaN".parse_or_default())
}

#[test]
fn parse_option_some_num() {
    assert_eq!(31u64, Some("31").parse_or_default());
    assert_eq!(0u64, Some("ASDF").parse_or_default())
}

#[test]
fn parse_option_none_num() {
    let option: Option<&str> = None;
    assert_eq!(0u64, option.parse_or_default())
}

#[test]
fn parse_signed_year() {
    assert_eq!(2022, "2022".parse_or(0i32));
    assert_eq!(-14, "-14".parse_or(0i32));
    assert_eq!(7, "oops".parse_or(7i32));
}

#[test]
fn parse_with_plus_sign() {
    assert_eq!(12, "+12".parse_or(0u64));
    assert_eq!(0u64, "+".parse_or_default());
}

#[test]
fn parse_small_overflow() {
    assert_eq!(200, "200".parse_or(0u8));
    assert_eq!(0, "300".parse_or(0u8));
    assert_eq!(0u64, "99999999999999999999999".parse_or_default());
}
