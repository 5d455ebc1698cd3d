use dystellar_launcher::json::{parse_json, to_compact_text, Json, JsonError, JsonNumber};

#[test]
fn numbers_read_as_integers_only_without_exponent() {
    let j = parse_json(r#"{"a": 5, "b": -5, "c": 5.5, "d": 1e2, "e": 4294967296, "f": -1}"#).unwrap();
    assert_eq!(j.get_i32("a"), Some(5));
    assert_eq!(j.get_i32("b"), Some(-5));
    assert_eq!(j.get_i32("c"), None);
    assert_eq!(j.get_i32("d"), None);
    assert_eq!(j.get_i32("e"), None);
    assert_eq!(j.get_isize("e"), Some(4294967296));
    assert_eq!(j.get_usize("f"), None);
    assert_eq!(j.get_usize("a"), Some(5));
    assert_eq!(j.get_i32("missing"), None);
}

#[test]
fn wrapped_mantissa_reads_as_the_crate_reads_it() {
    let n = Json::Number(JsonNumber { positive: true, mantissa: u64::MAX - 4, exponent: 0 });
    assert_eq!(n.as_i64(), Some(-5));
    assert_eq!(n.as_i32(), Some(-5));
    let m = Json::Number(JsonNumber { positive: false, mantissa: 1 << 63, exponent: 0 });
    assert_eq!(m.as_i64(), Some(i64::MIN));
    assert_eq!(m.as_i32(), None);
}

#[test]
fn strings_bools_and_members() {
    let j = parse_json(r#"{"s": "hi", "t": true, "arr": [1, 2, 3], "obj": {"k": null}}"#).unwrap();
    assert_eq!(j.get_str("s").as_deref(), Some("hi"));
    assert_eq!(j.get_str("t"), None);
    assert_eq!(j.get_bool("t"), Some(true));
    assert_eq!(j.field("arr").unwrap().members().unwrap().len(), 3);
    assert!(j.field("s").unwrap().members().is_none());
    let entries = j.field("obj").unwrap().entries().unwrap();
    assert_eq!(entries.len(), 1);
    assert_eq!(entries[0].0, "k");
    assert!(matches!(entries[0].1, Json::Null));
    assert!(j.field("nope").is_none());
    assert!(Json::Null.field("s").is_none());
}

#[test]
fn duplicate_keys_keep_the_last_value() {
    let j = parse_json(r#"{"a": 1, "a": 2}"#).unwrap();
    assert_eq!(j.entries().unwrap().len(), 1);
    assert_eq!(j.get_i32("a"), Some(2));
}

#[test]
fn invalid_text_is_refused() {
    assert_eq!(parse_json("{").unwrap_err(), JsonError::UnexpectedEndOfJson);
    assert!(parse_json("").is_err());
}

#[test]
fn parse_errors_read_as_the_crate_writes_them() {
    let e = parse_json("[1, ?]").unwrap_err();
    assert_eq!(e, JsonError::UnexpectedCharacter { ch: '?', line: 1, column: 5 });
    assert_eq!(e.message(), "Unexpected character: ? at (1:5)");
    assert_eq!(JsonError::UnexpectedEndOfJson.message(), "Unexpected end of JSON");
    assert_eq!(JsonError::ExceededDepthLimit.message(), "Exceeded depth limit");
    assert_eq!(JsonError::FailedUtf8Parsing.message(), "Failed to parse UTF-8 bytes");
    assert_eq!(JsonError::WrongType("object".to_string()).message(), "Wrong type, expected: object");
}

#[test]
fn stringify_is_compact() {
    let j = parse_json(r#"{ "a" : [ 1 , "x" ] }"#).unwrap();
    assert_eq!(to_compact_text(&j), r#"{"a":[1,"x"]}"#);
}
