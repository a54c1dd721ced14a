use batch_consumer::text::i64_to_dec;
use batch_consumer::text::parse_bool;
use batch_consumer::text::parse_u16;
use batch_consumer::text::parse_u64;
use batch_consumer::text::str_eq;
use batch_consumer::text::u64_to_dec;

#[test]
fn decimal_rendering_matches_the_standard_form() {
    assert_eq!(u64_to_dec(0), "0");
    assert_eq!(u64_to_dec(10), "10");
    assert_eq!(u64_to_dec(5672), "5672");
    assert_eq!(u64_to_dec(u64::MAX), "18446744073709551615");
    assert_eq!(i64_to_dec(-1), "-1");
    assert_eq!(i64_to_dec(0), "0");
    assert_eq!(i64_to_dec(i64::MIN), "-9223372036854775808");
}

#[test]
fn string_equality_is_character_wise() {
    assert!(str_eq("", ""));
    assert!(str_eq("abc", "abc"));
    assert!(!str_eq("abc", "abd"));
    assert!(!str_eq("abc", "ab"));
    assert!(str_eq("naïve", "naïve"));
}

#[test]
fn u16_parsing_accepts_exactly_the_in_range_numerals() {
    assert_eq!(parse_u16("0"), Some(0));
    assert_eq!(parse_u16("65535"), Some(65535));
    assert_eq!(parse_u16("65536"), None);
    assert_eq!(parse_u16("99999"), None);
    assert_eq!(parse_u16(""), None);
    assert_eq!(parse_u16("00042"), Some(42));
}

#[test]
fn u16_parsing_accepts_one_leading_plus_sign() {
    assert_eq!(parse_u16("+5"), Some(5));
    assert_eq!(parse_u16("+80"), Some(80));
    assert_eq!(parse_u16("+65535"), Some(65535));
    assert_eq!(parse_u16("+"), None);
    assert_eq!(parse_u16("++5"), None);
    assert_eq!(parse_u16("5+"), None);
    assert_eq!(parse_u16("-1"), None);
}

#[test]
fn u64_parsing_accepts_exactly_the_in_range_numerals() {
    assert_eq!(parse_u64("0"), Some(0));
    assert_eq!(parse_u64("18446744073709551615"), Some(u64::MAX));
    assert_eq!(parse_u64("18446744073709551616"), None);
    assert_eq!(parse_u64("999999999999999999999"), None);
    assert_eq!(parse_u64("12 3"), None);
    assert_eq!(parse_u64("+200"), Some(200));
    assert_eq!(parse_u64("+"), None);
}

#[test]
fn bool_parsing_accepts_exactly_the_two_canonical_words() {
    assert_eq!(parse_bool("true"), Some(true));
    assert_eq!(parse_bool("false"), Some(false));
    assert_eq!(parse_bool("True"), None);
    assert_eq!(parse_bool(""), None);
}
