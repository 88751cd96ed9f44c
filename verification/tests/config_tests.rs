use eslint_config::config::ESLintConfig;
use eslint_config::errors::ConfigError;
use eslint_config::json::JsonValue;
use eslint_config::severity::AllowWarnDeny;

#[test]
fn parses_rules_in_document_order() {
    let cfg = ESLintConfig::new("cfg.json", "{\"rules\":{\"zebra\":\"error\",\"alpha\":\"warn\"}}")
        .unwrap();
    assert_eq!(cfg.rules.len(), 2);
    assert_eq!(cfg.rules[0].plugin_name, "eslint");
    assert_eq!(cfg.rules[0].rule_name, "zebra");
    assert_eq!(cfg.rules[0].severity, AllowWarnDeny::Deny);
    assert_eq!(cfg.rules[0].config, None);
    assert_eq!(cfg.rules[1].rule_name, "alpha");
    assert_eq!(cfg.rules[1].severity, AllowWarnDeny::Warn);
}

#[test]
fn scoped_rules_are_normalized_with_options() {
    let doc = "{\"rules\":{\"@typescript-eslint/no-shadow\":[\"warn\",{\"hoist\":\"all\"}]}}";
    let cfg = ESLintConfig::new("cfg.json", doc).unwrap();
    assert_eq!(cfg.rules.len(), 1);
    assert_eq!(cfg.rules[0].plugin_name, "typescript");
    assert_eq!(cfg.rules[0].rule_name, "no-shadow");
    assert_eq!(cfg.rules[0].severity, AllowWarnDeny::Warn);
    let expected = JsonValue::Array(vec![JsonValue::Object(vec![(
        String::from("hoist"),
        JsonValue::Str(String::from("all")),
    )])]);
    assert_eq!(cfg.rules[0].config, Some(expected));
}

#[test]
fn documents_without_a_rules_object_have_no_rules() {
    assert!(ESLintConfig::new("cfg.json", "{}").unwrap().rules.is_empty());
    assert!(ESLintConfig::new("cfg.json", "[1,2]").unwrap().rules.is_empty());
    assert!(ESLintConfig::new("cfg.json", "{\"rules\":3}").unwrap().rules.is_empty());
}

#[test]
fn the_first_bad_rule_value_aborts_the_parse() {
    let doc = "{\"rules\":{\"a\":\"error\",\"b\":[],\"c\":\"bogus\"}}";
    match ESLintConfig::new("cfg.json", doc) {
        Err(ConfigError::InvalidRuleValue { value }) => assert_eq!(value, "[]"),
        r => panic!("expected an invalid rule value, got {:?}", r),
    }
}

#[test]
fn malformed_document_is_a_syntax_error() {
    match ESLintConfig::new("cfg.json", "not json") {
        Err(ConfigError::JsonSyntax { path, message }) => {
            assert_eq!(path, "cfg.json");
            assert!(!message.is_empty());
            assert!(!message.contains("only json configuration is supported"));
        },
        r => panic!("expected a syntax error, got {:?}", r),
    }
}

#[test]
fn non_json_media_type_gets_a_fixed_message() {
    match ESLintConfig::new("cfg.txt", "{,}") {
        Err(ConfigError::JsonSyntax { path, message }) => {
            assert_eq!(path, "cfg.txt");
            assert_eq!(message, "only json configuration is supported");
        },
        r => panic!("expected a syntax error, got {:?}", r),
    }
}

#[test]
fn unknown_media_type_gets_a_hint() {
    match ESLintConfig::new("cfgfile", "{,}") {
        Err(ConfigError::JsonSyntax { message, .. }) => {
            let hint = ", if the configuration is not a json file, please use json instead.";
            assert!(message.ends_with(hint));
            assert!(message.len() > hint.len());
        },
        r => panic!("expected a syntax error, got {:?}", r),
    }
}
