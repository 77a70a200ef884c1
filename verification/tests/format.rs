use glaredb_lite::format::{decimal_string, int_string, FormatOptions, Formatter};
use glaredb_lite::scalar::ScalarValue;
use glaredb_lite::text::trim_matches_char;

#[test]
fn decimal_and_signed_text() {
    assert_eq!("0", decimal_string(0));
    assert_eq!("10", decimal_string(10));
    assert_eq!("18446744073709551615", decimal_string(u64::MAX));
    assert_eq!("-1", int_string(-1));
    assert_eq!("-9223372036854775808", int_string(i64::MIN));
    assert_eq!("9223372036854775807", int_string(i64::MAX));
}

#[test]
fn formatter_options() {
    let f = Formatter::new(FormatOptions { null: "<null>", empty_string: "''" });
    assert_eq!("<null>", f.format_value(&ScalarValue::Null));
    assert_eq!("''", f.format_value(&ScalarValue::Utf8(String::new())));
    assert_eq!("x", f.format_value(&ScalarValue::Utf8("x".to_string())));
    assert_eq!("false", f.format_value(&ScalarValue::Boolean(false)));
    assert_eq!("-5", f.format_value(&ScalarValue::Int32(-5)));
}

#[test]
fn trim_matches_like_std() {
    for s in ["%%a%b%%", "%", "", "abc", "%%%", "é%"] {
        assert_eq!(s.trim_matches('%'), trim_matches_char(s, '%'));
    }
}
