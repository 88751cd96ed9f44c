use eslint_config::errors::ConfigError;
use eslint_config::json::JsonValue;
use eslint_config::severity::{resolve_rule_value, AllowWarnDeny};

fn s(t: &str) -> JsonValue {
    JsonValue::Str(String::from(t))
}

fn n(t: &str) -> JsonValue {
    JsonValue::Num(String::from(t))
}

fn obj1(key: &str, val: JsonValue) -> JsonValue {
    JsonValue::Object(vec![(String::from(key), val)])
}

#[test]
fn off_and_zero_decode_to_allow() {
    assert_eq!(resolve_rule_value(&s("off")).unwrap(), (AllowWarnDeny::Allow, None));
    assert_eq!(resolve_rule_value(&n("0")).unwrap(), (AllowWarnDeny::Allow, None));
}

#[test]
fn warn_and_one_decode_to_warn() {
    assert_eq!(resolve_rule_value(&s("warn")).unwrap(), (AllowWarnDeny::Warn, None));
    assert_eq!(resolve_rule_value(&n("1")).unwrap(), (AllowWarnDeny::Warn, None));
}

#[test]
fn error_and_two_decode_to_deny() {
    assert_eq!(resolve_rule_value(&s("error")).unwrap(), (AllowWarnDeny::Deny, None));
    assert_eq!(resolve_rule_value(&n("2")).unwrap(), (AllowWarnDeny::Deny, None));
}

#[test]
fn array_value_keeps_severity_and_options() {
    let v = JsonValue::Array(vec![s("error"), obj1("foo", n("1"))]);
    let (sev, opts) = resolve_rule_value(&v).unwrap();
    assert_eq!(sev, AllowWarnDeny::Deny);
    assert_eq!(opts, Some(JsonValue::Array(vec![obj1("foo", n("1"))])));
}

#[test]
fn options_beyond_the_third_element_are_dropped() {
    let v = JsonValue::Array(vec![s("error"), obj1("a", n("1")), obj1("b", n("2")), obj1("c", n("3"))]);
    let (sev, opts) = resolve_rule_value(&v).unwrap();
    assert_eq!(sev, AllowWarnDeny::Deny);
    assert_eq!(opts, Some(JsonValue::Array(vec![obj1("a", n("1")), obj1("b", n("2"))])));
}

#[test]
fn empty_array_is_an_invalid_rule_value() {
    match resolve_rule_value(&JsonValue::Array(vec![])) {
        Err(ConfigError::InvalidRuleValue { value }) => assert_eq!(value, "[]"),
        r => panic!("expected an invalid rule value, got {:?}", r),
    }
}

#[test]
fn non_severity_values_are_invalid() {
    match resolve_rule_value(&JsonValue::Bool(true)) {
        Err(ConfigError::InvalidRuleValue { value }) => assert_eq!(value, "true"),
        r => panic!("expected an invalid rule value, got {:?}", r),
    }
    match resolve_rule_value(&JsonValue::Null) {
        Err(ConfigError::InvalidRuleValue { value }) => assert_eq!(value, "null"),
        r => panic!("expected an invalid rule value, got {:?}", r),
    }
    match resolve_rule_value(&s("sometimes")) {
        Err(ConfigError::InvalidRuleValue { value }) => assert_eq!(value, "\"sometimes\""),
        r => panic!("expected an invalid rule value, got {:?}", r),
    }
}
