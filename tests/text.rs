use api_ict::json::Json;
use api_ict::level::year_of_digits;
use api_ict::text::{decimal_string, parse_i64, starts_with, str_eq};

#[test]
fn integers_parse_as_std_does() {
    assert_eq!(parse_i64("0"), Some(0));
    assert_eq!(parse_i64("+17"), Some(17));
    assert_eq!(parse_i64("-17"), Some(-17));
    assert_eq!(parse_i64("007"), Some(7));
    assert_eq!(parse_i64("9223372036854775807"), Some(i64::MAX));
    assert_eq!(parse_i64("-9223372036854775808"), Some(i64::MIN));
    assert_eq!(parse_i64("9223372036854775808"), None);
    assert_eq!(parse_i64("-9223372036854775809"), None);
    assert_eq!(parse_i64(""), None);
    assert_eq!(parse_i64("-"), None);
    assert_eq!(parse_i64("+"), None);
    assert_eq!(parse_i64(" 1"), None);
    assert_eq!(parse_i64("1a"), None);
    assert_eq!(parse_i64("٣"), None);
    for s in ["12", "-5", "+3", "x", "99999999999999999999"] {
        assert_eq!(parse_i64(s), s.parse::<i64>().ok());
    }
}

#[test]
fn decimal_strings() {
    assert_eq!(decimal_string(0), "0");
    assert_eq!(decimal_string(7), "7");
    assert_eq!(decimal_string(10), "10");
    assert_eq!(decimal_string(1203), "1203");
    assert_eq!(decimal_string(usize::MAX), usize::MAX.to_string());
}

#[test]
fn string_comparisons() {
    assert!(str_eq("abc", "abc"));
    assert!(!str_eq("abc", "abd"));
    assert!(!str_eq("ab", "abc"));
    assert!(starts_with("88601.1.1", "88601.1"));
    assert!(starts_with("x", ""));
    assert!(!starts_with("88", "886"));
}

#[test]
fn year_of_digit_run() {
    assert_eq!(year_of_digits(Some("4")), 4);
    assert_eq!(year_of_digits(Some("99999999999999999999")), 0);
    assert_eq!(year_of_digits(None), 0);
}

#[test]
fn json_members() {
    let obj = Json::Object(vec![
        ("a".to_string(), Json::Number(Some(1))),
        ("a".to_string(), Json::Number(Some(2))),
        ("s".to_string(), Json::Str("x".to_string())),
        ("n".to_string(), Json::Number(None)),
    ]);
    assert_eq!(obj.int_at("a"), 1);
    assert_eq!(obj.text_at("s"), "x");
    assert_eq!(obj.text_at("a"), "");
    assert_eq!(obj.int_at("n"), 0);
    assert_eq!(obj.int_at("missing"), 0);
    assert!(obj.get("missing").is_none());
    assert_eq!(Json::Null.text_at2("a", "b"), "");
    let nested = Json::Object(vec![("o".to_string(), obj)]);
    assert_eq!(nested.text_at2("o", "s"), "x");
    assert_eq!(nested.int_at2("o", "a"), 1);
}
