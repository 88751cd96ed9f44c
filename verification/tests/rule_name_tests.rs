use eslint_config::rule_name::parse_rule_name;

#[test]
fn unscoped_key_resolves_to_core_plugin() {
    let (plugin, rule) = parse_rule_name("no-var");
    assert_eq!(plugin, "eslint");
    assert_eq!(rule, "no-var");
}

#[test]
fn scoped_key_splits_at_first_separator() {
    let (plugin, rule) = parse_rule_name("react/jsx-key");
    assert_eq!(plugin, "react");
    assert_eq!(rule, "jsx-key");
}

#[test]
fn typescript_alias_is_mapped() {
    let (plugin, rule) = parse_rule_name("typescript-eslint/no-unused-vars");
    assert_eq!(plugin, "typescript");
    assert_eq!(rule, "no-unused-vars");
}

#[test]
fn at_marker_is_stripped_before_aliasing() {
    let (plugin, rule) = parse_rule_name("@typescript-eslint/no-unused-vars");
    assert_eq!(plugin, "typescript");
    assert_eq!(rule, "no-unused-vars");
    let (plugin, rule) = parse_rule_name("@react/widget");
    assert_eq!(plugin, "react");
    assert_eq!(rule, "widget");
}

#[test]
fn accessibility_alias_is_normalized() {
    let (plugin, rule) = parse_rule_name("jsx-a11y/alt-text");
    assert_eq!(plugin, "jsx_a11y");
    assert_eq!(rule, "alt-text");
}
