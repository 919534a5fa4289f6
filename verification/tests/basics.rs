use penumbra::chars::{
    contains, has_prefix, has_suffix, is_before, join, split_char, split_lines, split_words, trim,
};
use penumbra::clock::{millis_stamp, seconds_stamp};
use penumbra::json::{integer, parse_json, unsigned, Json, JsonNumber, RAW_VALUE_NAME};
use penumbra::number::{i64_text, is_number, parse_u32, parse_u64, u64_text};
use penumbra::weburl::{one_param, with_query};

#[test]
fn texts_split_as_expected() {
    assert_eq!(split_words(" a\u{2003}b\n"), ["a", "b"]);
    assert_eq!(split_lines("a\r\nb\n\nc"), ["a", "b", "", "c"]);
    assert_eq!(split_char("a::b", ':'), ["a", "", "b"]);
    assert_eq!(trim("\t a b \n"), "a b");
    assert_eq!(join(&split_words("a b"), "; "), "a; b");
    assert!(contains("abc", "bc") && !contains("abc", "d") && contains("abc", ""));
    assert!(has_prefix("abc", "ab") && has_suffix("abc", "bc"));
    assert!(is_before("a", "ab") && is_before("2019", "2020") && !is_before("b", "a"));
}

#[test]
fn numbers_are_read_and_written() {
    assert_eq!(parse_u64("18446744073709551615"), Some(u64::MAX));
    assert_eq!(parse_u64("18446744073709551616"), None);
    assert_eq!(parse_u64("+7"), Some(7));
    assert_eq!(parse_u64("+"), None);
    assert_eq!(parse_u64("-1"), None);
    assert_eq!(parse_u64(""), None);
    assert_eq!(parse_u32("4294967296"), None);
    assert_eq!(u64_text(0), "0");
    assert_eq!(u64_text(u64::MAX), "18446744073709551615");
    assert_eq!(i64_text(i64::MIN), "-9223372036854775808");
}

#[test]
fn json_is_read_and_written() {
    let value = parse_json(r#" {"b":[1,-2,1.5,null],"a":"x\n"} "#).unwrap();
    assert_eq!(value.get_str("a"), Some("x\n"));
    assert_eq!(value.pointer(&vec!["b", "0"]).unwrap().as_u64(), Some(1));
    assert_eq!(value.pointer(&vec!["b", "01"]), None);
    assert_eq!(value.pointer(&vec!["b", "1"]), Some(&Json::Number(JsonNumber::Negative(-2))));
    assert_eq!(parse_json("{"), None);
    assert_eq!(integer(-5).to_text(), "-5");
    assert_eq!(integer(5), unsigned(5));
    let flat = parse_json(r#"{"a":"\"","b":true}"#).unwrap();
    assert_eq!(parse_json(&flat.to_text()), Some(flat));
    let behind = Json::Object(vec![
        ("#".to_string(), Json::Str("x".to_string())),
        (RAW_VALUE_NAME.to_string(), Json::Str("1".to_string())),
    ]);
    assert_eq!(parse_json(&behind.to_text()), Some(behind));
}

#[test]
fn numbers_have_any_size() {
    assert!(is_number("18446744073709551616"));
    assert!(is_number("+1"));
    assert!(!is_number("+"));
    assert!(!is_number(""));
    assert!(!is_number("-1"));
    assert!(!is_number("1x"));
}

#[test]
fn queries_are_encoded() {
    assert_eq!(
        with_query("https://h/p", &one_param("q", "a b&c")),
        Ok("https://h/p?q=a+b%26c".to_string())
    );
    assert!(with_query("not a url", &one_param("q", "x")).is_err());
}

#[test]
fn times_before_the_epoch_are_zero() {
    assert_eq!(millis_stamp(None), 0);
    assert_eq!(millis_stamp(Some(5)), 5);
    assert_eq!(seconds_stamp(None), 0);
    assert_eq!(seconds_stamp(Some(9)), 9);
}
