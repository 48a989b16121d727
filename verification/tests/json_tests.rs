use portfolio::json::{encode_json, parse_json_text, Json};

fn parses(text: &str) -> Json {
    parse_json_text(text).expect("should parse")
}

#[test]
fn parses_null_and_bools() {
    assert!(matches!(parses("null"), Json::Null));
    assert!(matches!(parses("true"), Json::Bool(true)));
    assert!(matches!(parses("false"), Json::Bool(false)));
    assert!(matches!(parses("  null  "), Json::Null));
}

#[test]
fn parses_numbers_as_lexemes() {
    match parses("42") {
        Json::Num(s) => assert_eq!(s, "42"),
        _ => panic!("not a number"),
    }
    match parses("-0.5e+10") {
        Json::Num(s) => assert_eq!(s, "-0.5e+10"),
        _ => panic!("not a number"),
    }
    match parses("0") {
        Json::Num(s) => assert_eq!(s, "0"),
        _ => panic!("not a number"),
    }
}

#[test]
fn rejects_bad_numbers() {
    assert!(parse_json_text("01").is_none());
    assert!(parse_json_text("1.").is_none());
    assert!(parse_json_text("+1").is_none());
    assert!(parse_json_text("1e").is_none());
    assert!(parse_json_text("-").is_none());
}

#[test]
fn parses_strings_with_escapes() {
    match parses("\"a\\nb\"") {
        Json::Str(s) => assert_eq!(s, "a\nb"),
        _ => panic!("not a string"),
    }
    match parses("\"\\u0041\\u00e9\"") {
        Json::Str(s) => assert_eq!(s, "A\u{e9}"),
        _ => panic!("not a string"),
    }
    match parses("\"\\\\ and \\\"\"") {
        Json::Str(s) => assert_eq!(s, "\\ and \""),
        _ => panic!("not a string"),
    }
}

#[test]
fn rejects_bad_strings() {
    assert!(parse_json_text("\"unterminated").is_none());
    assert!(parse_json_text("\"bad \\x escape\"").is_none());
    assert!(parse_json_text("\"raw \u{0001} control\"").is_none());
    assert!(parse_json_text("\"\\ud800\"").is_none());
}

#[test]
fn parses_arrays_and_objects() {
    match parses("[1, 2, 3]") {
        Json::Arr(v) => assert_eq!(v.len(), 3),
        _ => panic!("not an array"),
    }
    match parses("[]") {
        Json::Arr(v) => assert!(v.is_empty()),
        _ => panic!("not an array"),
    }
    match parses("{ \"a\": [true], \"b\": null }") {
        Json::Obj(m) => {
            assert_eq!(m.len(), 2);
            assert_eq!(m[0].0, "a");
            assert_eq!(m[1].0, "b");
        }
        _ => panic!("not an object"),
    }
}

#[test]
fn rejects_malformed_texts() {
    assert!(parse_json_text("not json").is_none());
    assert!(parse_json_text("").is_none());
    assert!(parse_json_text("[1,]").is_none());
    assert!(parse_json_text("{\"a\":}").is_none());
    assert!(parse_json_text("[1] trailing").is_none());
    assert!(parse_json_text("{'a': 1}").is_none());
}

#[test]
fn encodes_canonically() {
    let v = Json::Arr(vec![
        Json::Null,
        Json::Bool(true),
        Json::Num("7".to_owned()),
        Json::Str("hi \"there\"\n".to_owned()),
    ]);
    assert_eq!(encode_json(&v), "[null,true,7,\"hi \\\"there\\\"\\n\"]");
    let empty = Json::Obj(vec![]);
    assert_eq!(encode_json(&empty), "{}");
}

#[test]
fn encodes_control_characters_as_hex_escapes() {
    let v = Json::Str("\u{0001}\u{0008}\u{000C}\t".to_owned());
    assert_eq!(encode_json(&v), "\"\\u0001\\b\\f\\t\"");
}

#[test]
fn round_trips_values_through_text() {
    let v = Json::Obj(vec![
        ("k\n1".to_owned(), Json::Arr(vec![Json::Num("-1.5e-3".to_owned()), Json::Null])),
        ("k2".to_owned(), Json::Str("\u{30c4} unicode".to_owned())),
    ]);
    let text = encode_json(&v);
    let back = parses(&text);
    assert_eq!(encode_json(&back), text);
}

#[test]
fn encoded_output_is_json_for_other_readers() {
    let v = Json::Obj(vec![("key".to_owned(), Json::Str("va\"lue".to_owned()))]);
    let text = encode_json(&v);
    let reparsed: Result<serde_json::Value, _> = serde_json::from_str(&text);
    assert!(reparsed.is_ok());
}
