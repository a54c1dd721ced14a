use batch_consumer::delivery::HeaderValue;
use batch_consumer::headers::get_header_value_if_exists;
use batch_consumer::headers::render_value;

fn table(entries: Vec<(&str, HeaderValue)>) -> Option<Vec<(String, HeaderValue)>> {
    Some(entries.into_iter().map(|(k, v)| (k.to_string(), v)).collect())
}

#[test]
fn long_string_value_is_returned_verbatim() {
    let headers = table(vec![("my-header-key", HeaderValue::LongString(b"abc".to_vec()))]);
    assert_eq!(
        get_header_value_if_exists(&headers, "my-header-key"),
        Some("abc".to_string())
    );
}

#[test]
fn missing_key_yields_absent() {
    let headers = table(vec![("x", HeaderValue::Boolean(true))]);
    assert_eq!(get_header_value_if_exists(&headers, "my-header-key"), None);
}

#[test]
fn absent_headers_yield_absent() {
    assert_eq!(get_header_value_if_exists(&None, "my-header-key"), None);
    assert_eq!(get_header_value_if_exists(&None, "anything"), None);
}

#[test]
fn invalid_utf8_long_string_is_decoded_lossily() {
    let headers = table(vec![("k", HeaderValue::LongString(vec![0x61, 0xFF, 0x62]))]);
    assert_eq!(
        get_header_value_if_exists(&headers, "k"),
        Some("a\u{FFFD}b".to_string())
    );
}

#[test]
fn short_string_value_is_returned_verbatim() {
    let headers = table(vec![("k", HeaderValue::ShortString("hello".to_string()))]);
    assert_eq!(get_header_value_if_exists(&headers, "k"), Some("hello".to_string()));
}

#[test]
fn boolean_values_render_canonically() {
    assert_eq!(render_value(&HeaderValue::Boolean(true)), "true");
    assert_eq!(render_value(&HeaderValue::Boolean(false)), "false");
}

#[test]
fn integer_values_render_in_decimal() {
    assert_eq!(render_value(&HeaderValue::LongInt(0)), "0");
    assert_eq!(render_value(&HeaderValue::LongInt(-42)), "-42");
    assert_eq!(render_value(&HeaderValue::LongInt(i32::MIN)), "-2147483648");
    assert_eq!(render_value(&HeaderValue::LongLongInt(9000000000)), "9000000000");
    assert_eq!(render_value(&HeaderValue::LongLongInt(i64::MIN)), "-9223372036854775808");
    assert_eq!(render_value(&HeaderValue::LongLongInt(i64::MAX)), "9223372036854775807");
}

#[test]
fn timestamp_values_render_in_decimal() {
    assert_eq!(render_value(&HeaderValue::Timestamp(0)), "0");
    assert_eq!(render_value(&HeaderValue::Timestamp(1700000000)), "1700000000");
    assert_eq!(render_value(&HeaderValue::Timestamp(u64::MAX)), "18446744073709551615");
}

#[test]
fn float_values_render_as_their_carried_text() {
    let as_text = HeaderValue::FloatText(2.5f32.to_string());
    assert_eq!(render_value(&as_text), "2.5");
    let as_text = HeaderValue::DoubleText(3.25f64.to_string());
    assert_eq!(render_value(&as_text), "3.25");
}

#[test]
fn fallback_values_render_as_their_carried_text() {
    let headers = table(vec![("k", HeaderValue::Fallback("Void".to_string()))]);
    assert_eq!(get_header_value_if_exists(&headers, "k"), Some("Void".to_string()));
}

#[test]
fn first_matching_entry_wins() {
    let headers = table(vec![
        ("a", HeaderValue::ShortString("one".to_string())),
        ("b", HeaderValue::ShortString("two".to_string())),
    ]);
    assert_eq!(get_header_value_if_exists(&headers, "b"), Some("two".to_string()));
}
