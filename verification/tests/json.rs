use leanpub_client::json::parse_and_pretty;
use leanpub_client::json::parse_json;
use leanpub_client::json::to_pretty_string;
use leanpub_client::json::JsonValue;

fn obj(entries: Vec<(&str, JsonValue)>) -> JsonValue {
    JsonValue::Obj(
        entries
            .into_iter()
            .map(|(k, v)| (k.to_string(), v))
            .collect(),
    )
}

#[test]
fn scalars_print_on_one_line() {
    assert_eq!(to_pretty_string(&JsonValue::Null), "null");
    assert_eq!(to_pretty_string(&JsonValue::Bool(true)), "true");
    assert_eq!(to_pretty_string(&JsonValue::Bool(false)), "false");
    assert_eq!(to_pretty_string(&JsonValue::Num("12.5".to_string())), "12.5");
    assert_eq!(
        to_pretty_string(&JsonValue::Str("hello".to_string())),
        "\"hello\""
    );
}

#[test]
fn empty_containers_print_closed() {
    assert_eq!(to_pretty_string(&JsonValue::Arr(Vec::new())), "[]");
    assert_eq!(to_pretty_string(&JsonValue::Obj(Vec::new())), "{}");
}

#[test]
fn mapping_prints_with_two_space_indentation() {
    let v = obj(vec![("a", JsonValue::Num("1".to_string()))]);
    assert_eq!(to_pretty_string(&v), "{\n  \"a\": 1\n}");
}

#[test]
fn nested_values_indent_one_level_per_depth() {
    let inner = obj(vec![("b", JsonValue::Bool(true))]);
    let v = obj(vec![
        ("a", JsonValue::Arr(vec![
            JsonValue::Num("1".to_string()),
            JsonValue::Num("2".to_string()),
        ])),
        ("c", inner),
    ]);
    assert_eq!(
        to_pretty_string(&v),
        "{\n  \"a\": [\n    1,\n    2\n  ],\n  \"c\": {\n    \"b\": true\n  }\n}"
    );
}

#[test]
fn string_contents_are_escaped() {
    let v = JsonValue::Str("a\"b\\c\nd\te\u{1}".to_string());
    assert_eq!(to_pretty_string(&v), "\"a\\\"b\\\\c\\nd\\te\\u0001\"");
}

#[test]
fn parsing_builds_the_model() {
    let parsed = parse_json(b"{\"a\": [1, true, null], \"b\": \"x\"}")
        .expect("valid document");
    let expected = obj(vec![
        (
            "a",
            JsonValue::Arr(vec![
                JsonValue::Num("1".to_string()),
                JsonValue::Bool(true),
                JsonValue::Null,
            ]),
        ),
        ("b", JsonValue::Str("x".to_string())),
    ]);
    assert_eq!(parsed, expected);
}

#[test]
fn parsing_rejects_bad_bytes() {
    assert_eq!(parse_json(b"{\"a\": "), None);
    assert_eq!(parse_json(b""), None);
    assert_eq!(parse_json(b"not json"), None);
}

#[test]
fn parse_and_pretty_renders_the_parsed_document() {
    let out = parse_and_pretty(b"{\"a\":1}").expect("valid document");
    assert_eq!(out, "{\n  \"a\": 1\n}");
    assert_eq!(parse_and_pretty(b"oops"), None);
}

#[test]
fn pretty_printing_round_trips_through_parsing() {
    // Printing a mapping keeps key presence and nesting: parsing the pretty
    // text again yields the same model.
    let bytes: &[u8] = b"{\"outer\": {\"inner\": [1, \"two\", false]}, \"n\": null}";
    let first = parse_json(bytes).expect("valid document");
    let pretty = to_pretty_string(&first);
    let second = parse_json(pretty.as_bytes()).expect("pretty text is valid JSON");
    assert_eq!(first, second);
}

#[test]
fn duplicate_keys_keep_the_last_value() {
    let parsed = parse_json(b"{\"a\": 1, \"a\": 2}").expect("valid document");
    let expected = obj(vec![("a", JsonValue::Num("2".to_string()))]);
    assert_eq!(parsed, expected);
}

#[test]
fn number_tokens_pass_through_unmodified() {
    let parsed = parse_json(b"[12.5, -3, 1e3]").expect("valid document");
    let pretty = match &parsed {
        JsonValue::Arr(items) => {
            assert_eq!(items[0], JsonValue::Num("12.5".to_string()));
            to_pretty_string(&parsed)
        },
        _ => panic!("expected a list"),
    };
    assert_eq!(pretty, "[\n  12.5,\n  -3,\n  1000.0\n]");
}
