use eslint_config::json::JsonValue;
use eslint_config::render::json_to_string;

#[test]
fn renders_nested_values_compactly() {
    let v = JsonValue::Object(vec![(
        String::from("a"),
        JsonValue::Array(vec![
            JsonValue::Null,
            JsonValue::Bool(true),
            JsonValue::Num(String::from("2")),
            JsonValue::Str(String::from("x")),
        ]),
    )]);
    assert_eq!(json_to_string(&v), "{\"a\":[null,true,2,\"x\"]}");
}

#[test]
fn escapes_quotes_backslashes_and_controls() {
    let v = JsonValue::Str(String::from("a\"b\\c\nd\u{1}"));
    assert_eq!(json_to_string(&v), "\"a\\\"b\\\\c\\nd\\u0001\"");
}

#[test]
fn renders_empty_containers() {
    assert_eq!(json_to_string(&JsonValue::Array(vec![])), "[]");
    assert_eq!(json_to_string(&JsonValue::Object(vec![])), "{}");
}
