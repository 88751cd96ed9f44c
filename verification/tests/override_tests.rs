use eslint_config::config::ESLintConfig;
use eslint_config::json::JsonValue;
use eslint_config::overrides::RuleInstance;
use eslint_config::severity::AllowWarnDeny;

fn active_rule(plugin: &str, rule: &str) -> RuleInstance {
    RuleInstance {
        plugin_name: String::from(plugin),
        rule_name: String::from(rule),
        severity: AllowWarnDeny::Deny,
        config: None,
    }
}

#[test]
fn off_override_removes_the_rule() {
    let cfg = ESLintConfig::new("cfg.json", "{\"rules\":{\"no-var\":\"off\"}}").unwrap();
    let mut active = vec![active_rule("eslint", "no-var")];
    cfg.override_rules(&mut active);
    assert!(active.is_empty());
}

#[test]
fn warn_override_reconfigures_the_rule() {
    let cfg = ESLintConfig::new("cfg.json", "{\"rules\":{\"no-var\":[\"warn\",{\"x\":1}]}}")
        .unwrap();
    let mut active = vec![active_rule("eslint", "no-var")];
    cfg.override_rules(&mut active);
    assert_eq!(active.len(), 1);
    assert_eq!(active[0].plugin_name, "eslint");
    assert_eq!(active[0].rule_name, "no-var");
    assert_eq!(active[0].severity, AllowWarnDeny::Warn);
    let expected = JsonValue::Array(vec![JsonValue::Object(vec![(
        String::from("x"),
        JsonValue::Num(String::from("1")),
    )])]);
    assert_eq!(active[0].config, Some(expected));
}

#[test]
fn unmatched_rule_is_untouched() {
    let cfg = ESLintConfig::new("cfg.json", "{\"rules\":{\"eqeqeq\":\"off\"}}").unwrap();
    let mut active = vec![active_rule("eslint", "no-var")];
    cfg.override_rules(&mut active);
    assert_eq!(active, vec![active_rule("eslint", "no-var")]);
}

#[test]
fn identities_are_compared_normalized() {
    let cfg = ESLintConfig::new("cfg.json", "{\"rules\":{\"@typescript-eslint/no-shadow\":\"off\"}}")
        .unwrap();
    let mut active = vec![active_rule("typescript", "no-shadow"), active_rule("eslint", "no-var")];
    cfg.override_rules(&mut active);
    assert_eq!(active, vec![active_rule("eslint", "no-var")]);
}

#[test]
fn config_entries_never_add_rules() {
    let cfg = ESLintConfig::new("cfg.json", "{\"rules\":{\"no-var\":\"error\"}}").unwrap();
    let mut active: Vec<RuleInstance> = vec![];
    cfg.override_rules(&mut active);
    assert!(active.is_empty());
}

#[test]
fn override_is_idempotent() {
    let doc = "{\"rules\":{\"no-var\":[\"warn\",{\"x\":1}],\"eqeqeq\":\"off\"}}";
    let cfg = ESLintConfig::new("cfg.json", doc).unwrap();
    let start = || {
        vec![
            active_rule("eslint", "no-var"),
            active_rule("eslint", "eqeqeq"),
            active_rule("react", "jsx-key"),
        ]
    };
    let mut once = start();
    cfg.override_rules(&mut once);
    let mut twice = start();
    cfg.override_rules(&mut twice);
    cfg.override_rules(&mut twice);
    assert_eq!(once, twice);
    assert_eq!(once.len(), 2);
}
