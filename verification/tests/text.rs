use sidefeed::json::{get_string, JsonValue};
use sidefeed::model::{opt_str, public_visibility};
use sidefeed::text::{chars_of, contains_chars, decimal_text, signed_text, split_chars, string_of, trim_chars};

#[test]
fn numbers_are_written_in_decimal() {
    assert_eq!(decimal_text(0), "0");
    assert_eq!(decimal_text(u64::MAX), "18446744073709551615");
    assert_eq!(signed_text(-42), "-42");
    assert_eq!(signed_text(i64::MIN), "-9223372036854775808");
}

#[test]
fn character_helpers() {
    let cs = chars_of("  a,b ,\u{3000}");
    assert_eq!(string_of(&trim_chars(&cs)), "a,b ,");
    let pieces: Vec<String> = split_chars(&chars_of("a,,b"), ',').iter().map(string_of).collect();
    assert_eq!(pieces, vec!["a".to_string(), "".to_string(), "b".to_string()]);
    assert!(contains_chars(&chars_of("haystack"), &chars_of("st")));
    assert!(!contains_chars(&chars_of("hay"), &chars_of("hays")));
    assert!(contains_chars(&chars_of("hay"), &chars_of("")));
}

#[test]
fn json_members_and_defaults() {
    let v = JsonValue::Object(vec![("a".to_string(), JsonValue::String("x".to_string())), ("b".to_string(), JsonValue::Null)]);
    assert_eq!(get_string(&v, "a").map(String::as_str), Some("x"));
    assert_eq!(get_string(&v, "b"), None);
    assert_eq!(get_string(&v, "c"), None);
    assert_eq!(public_visibility(), "public");
    assert_eq!(opt_str(&None), "");
    assert_eq!(opt_str(&Some("t".to_string())), "t");
}
