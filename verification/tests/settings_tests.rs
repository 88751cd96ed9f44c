use eslint_config::config::ESLintConfig;
use eslint_config::errors::ConfigError;
use eslint_config::json::JsonValue;
use eslint_config::settings::parse_settings;

#[test]
fn settings_round_trip() {
    let doc = "{\"settings\":{\"jsx-a11y\":{\"polymorphicPropName\":\"as\",\"components\":{\"Link\":\"a\"}}}}";
    let cfg = ESLintConfig::new("cfg.json", doc).unwrap();
    let settings = cfg.settings();
    assert_eq!(settings.jsx_a11y.polymorphic_prop_name, Some(String::from("as")));
    assert_eq!(settings.jsx_a11y.components, vec![(String::from("Link"), String::from("a"))]);
}

#[test]
fn missing_settings_key_yields_defaults() {
    let cfg = ESLintConfig::new("cfg.json", "{}").unwrap();
    let settings = cfg.settings();
    assert_eq!(settings.jsx_a11y.polymorphic_prop_name, None);
    assert!(settings.jsx_a11y.components.is_empty());
}

#[test]
fn missing_plugin_subkey_yields_defaults() {
    let cfg = ESLintConfig::new("cfg.json", "{\"settings\":{\"import\":{}}}").unwrap();
    let settings = cfg.settings();
    assert_eq!(settings.jsx_a11y.polymorphic_prop_name, None);
    assert!(settings.jsx_a11y.components.is_empty());
}

#[test]
fn non_object_settings_value_yields_defaults() {
    let settings = parse_settings(&JsonValue::Num(String::from("3"))).unwrap();
    assert_eq!(settings.jsx_a11y.polymorphic_prop_name, None);
    assert!(settings.jsx_a11y.components.is_empty());
}

#[test]
fn non_string_component_value_is_a_type_error() {
    let doc = "{\"settings\":{\"jsx-a11y\":{\"components\":{\"Link\":1}}}}";
    match ESLintConfig::new("cfg.json", doc) {
        Err(ConfigError::SettingsType { key }) => assert_eq!(key, "Link"),
        r => panic!("expected a settings type error, got {:?}", r),
    }
}
