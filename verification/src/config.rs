use crate::errors::ConfigError;
use crate::json::{
    json_obj_get, json_parse_error, jv, jv_obj, lemma_jv_obj, obj_get, parse_json_text,
    parsed_json, JsonV, JsonValue,
};
use crate::render::render_json;
use crate::rule_name::{parse_rule_name, spec_parse_rule_name};
use crate::settings::{
    parse_settings_from_root, spec_settings_from_root, LintSettings, SettingsV,
};
use crate::severity::{opt_jv, resolve_rule_value, spec_resolve_rule_value, AllowWarnDeny};
use crate::strutil::str_eq;
use vstd::prelude::*;

verus! {

/// Model of one configured rule entry.
pub struct RuleEntryV {
    pub plugin_name: Seq<char>,
    pub rule_name: Seq<char>,
    pub severity: AllowWarnDeny,
    pub config: Option<JsonV>,
}

/// One entry under a document's "rules" key: a normalized plugin and rule
/// name, a severity, and an optional options payload.
#[derive(Debug, PartialEq, Eq)]
pub struct ESLintRuleConfig {
    pub plugin_name: String,
    pub rule_name: String,
    pub severity: AllowWarnDeny,
    pub config: Option<JsonValue>,
}

impl View for ESLintRuleConfig {
    type V = RuleEntryV;

    open spec fn view(&self) -> RuleEntryV {
        RuleEntryV {
            plugin_name: self.plugin_name@,
            rule_name: self.rule_name@,
            severity: self.severity,
            config: opt_jv(self.config),
        }
    }
}

/// The models of a rule entry list.
pub open spec fn rules_view(rs: Seq<ESLintRuleConfig>) -> Seq<RuleEntryV> {
    Seq::new(rs.len(), |i: int| rs[i]@)
}

/// What one "rules" entry resolves to, if its value decodes.
pub open spec fn spec_rule_entry(key: Seq<char>, v: JsonV) -> Option<RuleEntryV> {
    match spec_resolve_rule_value(v) {
        Some(p) => Some(
            RuleEntryV {
                plugin_name: spec_parse_rule_name(key).0,
                rule_name: spec_parse_rule_name(key).1,
                severity: p.0,
                config: p.1,
            },
        ),
        None => None,
    }
}

/// What a "rules" object resolves to, in document order; the first value
/// that does not decode aborts the whole parse and is carried out.
pub open spec fn spec_parse_rules_entries(entries: Seq<(Seq<char>, JsonV)>) -> Result<
    Seq<RuleEntryV>,
    JsonV,
>
    decreases entries.len(),
{
    if entries.len() == 0 {
        Ok(Seq::empty())
    } else {
        match spec_rule_entry(entries[0].0, entries[0].1) {
            Some(e) => match spec_parse_rules_entries(entries.drop_first()) {
                Ok(rest) => Ok(seq![e] + rest),
                Err(v) => Err(v),
            },
            None => Err(entries[0].1),
        }
    }
}

/// The rule list of a whole document: a document that is not an object, has
/// no "rules" key, or whose "rules" is not an object has an empty list.
pub open spec fn spec_rules_of_doc(doc: JsonV) -> Result<Seq<RuleEntryV>, JsonV> {
    match doc {
        JsonV::Obj(root) => match obj_get(root, "rules"@) {
            Some(JsonV::Obj(entries)) => spec_parse_rules_entries(entries),
            _ => Ok(Seq::empty()),
        },
        _ => Ok(Seq::empty()),
    }
}

proof fn lemma_parse_rules_step(entries: Seq<(Seq<char>, JsonV)>, i: int)
    requires
        0 <= i < entries.len(),
    ensures
        spec_rule_entry(entries[i].0, entries[i].1) matches Some(e) ==> spec_parse_rules_entries(
            entries.skip(i),
        ) == (match spec_parse_rules_entries(entries.skip(i + 1)) {
            Ok(rest) => Ok::<Seq<RuleEntryV>, JsonV>(seq![e] + rest),
            Err(v) => Err(v),
        }),
        spec_rule_entry(entries[i].0, entries[i].1) is None ==> spec_parse_rules_entries(
            entries.skip(i),
        ) == Err::<Seq<RuleEntryV>, JsonV>(entries[i].1),
{
    assert(entries.skip(i)[0] == entries[i]);
    assert(entries.skip(i).drop_first() =~= entries.skip(i + 1));
}

/// Resolves every entry under a document's "rules" key, in document order,
/// failing fast on the first value that does not decode.
#[verifier::loop_isolation(false)]
pub fn parse_rules(root_json: &JsonValue) -> (r: Result<Vec<ESLintRuleConfig>, ConfigError>)
    ensures
        match r {
            Ok(rules) => spec_rules_of_doc(jv(*root_json)) == Ok::<Seq<RuleEntryV>, JsonV>(
                rules_view(rules@),
            ),
            Err(e) => {
                &&& spec_rules_of_doc(jv(*root_json)) matches Err(v)
                &&& e matches ConfigError::InvalidRuleValue { value: t } && t@ == render_json(v)
            },
        },
{
    let mut out: Vec<ESLintRuleConfig> = Vec::new();
    if let JsonValue::Object(root) = root_json {
        if let Some(rules_value) = json_obj_get(root, "rules") {
            if let JsonValue::Object(ms) = rules_value {
                proof {
                    lemma_jv_obj(ms@);
                    assert(jv_obj(ms@).skip(0) =~= jv_obj(ms@));
                    assert(rules_view(out@) =~= Seq::<RuleEntryV>::empty());
                }
                let n = ms.len();
                let mut i: usize = 0;
                while i < n
                    invariant
                        0 <= i <= n,
                        spec_parse_rules_entries(jv_obj(ms@)) == (
                        match spec_parse_rules_entries(jv_obj(ms@).skip(i as int)) {
                            Ok(rest) => Ok::<Seq<RuleEntryV>, JsonV>(rules_view(out@) + rest),
                            Err(v) => Err(v),
                        }),
                    decreases n - i,
                {
                    proof {
                        lemma_parse_rules_step(jv_obj(ms@), i as int);
                    }
                    let key = parse_rule_name(ms[i].0.as_str());
                    match resolve_rule_value(&ms[i].1) {
                        Ok(p) => {
                            let entry = ESLintRuleConfig {
                                plugin_name: key.0,
                                rule_name: key.1,
                                severity: p.0,
                                config: p.1,
                            };
                            proof {
                                let e = spec_rule_entry(
                                    jv_obj(ms@)[i as int].0,
                                    jv_obj(ms@)[i as int].1,
                                )->Some_0;
                                assert(entry@ == e);
                                assert(rules_view(out@.push(entry)) =~= rules_view(out@).push(
                                    entry@,
                                ));
                                assert forall|rest: Seq<RuleEntryV>|
                                    rules_view(out@) + (seq![e] + rest) =~= rules_view(
                                        out@.push(entry),
                                    ) + rest by {};
                            }
                            out.push(entry);
                        },
                        Err(e) => {
                            return Err(e);
                        },
                    }
                    i += 1;
                }
                proof {
                    assert(jv_obj(ms@).skip(n as int) =~= Seq::<(Seq<char>, JsonV)>::empty());
                    assert(rules_view(out@) + Seq::<RuleEntryV>::empty() =~= rules_view(out@));
                }
                return Ok(out);
            }
        }
    }
    proof {
        assert(rules_view(out@) =~= Seq::<RuleEntryV>::empty());
    }
    Ok(out)
}

/// Model of a parsed configuration: its rule entries and its settings.
pub struct ConfigV {
    pub rules: Seq<RuleEntryV>,
    pub settings: SettingsV,
}

/// A parsed configuration document: the resolved rule entries, in document
/// order, and the plugin settings.
#[derive(Debug)]
pub struct ESLintConfig {
    pub rules: Vec<ESLintRuleConfig>,
    pub settings: LintSettings,
}

impl View for ESLintConfig {
    type V = ConfigV;

    open spec fn view(&self) -> ConfigV {
        ConfigV { rules: rules_view(self.rules@), settings: self.settings@ }
    }
}

/// The subtype of the media type guessed from a path's extension, if any.
pub uninterp spec fn guessed_subtype(path: Seq<char>) -> Option<Seq<char>>;

/// Relies on mime_guess::from_path and mime::Mime::subtype: the first guess
/// is looked up in a fixed extension table, so it depends on the path alone.
#[verifier::external_body]
fn mime_subtype_of(path: &str) -> (r: Option<String>)
    ensures
        match r {
            Some(s) => guessed_subtype(path@) == Some(s@),
            None => guessed_subtype(path@) is None,
        },
{
    mime_guess::from_path(path).first().map(|m| m.subtype().as_str().to_string())
}

/// The message of a syntax error: the raw parser error for a path that looks
/// like JSON, a fixed sentence for another known media type, and the parser
/// error with a hint appended when the media type is unknown.
pub open spec fn spec_syntax_message(path: Seq<char>, source: Seq<char>) -> Seq<char> {
    match guessed_subtype(path) {
        Some(st) => if st == "json"@ {
            json_parse_error(source)
        } else {
            "only json configuration is supported"@
        },
        None => json_parse_error(source)
            + ", if the configuration is not a json file, please use json instead."@,
    }
}

impl ESLintConfig {
    /// Parses a configuration document. The caller reads the file at `path`
    /// and hands its text in `source`; the path decides only how a syntax
    /// error is worded.
    pub fn new(path: &str, source: &str) -> (r: Result<ESLintConfig, ConfigError>)
        ensures
            match r {
                Ok(c) => {
                    &&& parsed_json(source@) matches Some(doc)
                    &&& spec_rules_of_doc(doc) == Ok::<Seq<RuleEntryV>, JsonV>(c@.rules)
                    &&& spec_settings_from_root(doc) == Ok::<SettingsV, Seq<char>>(c@.settings)
                },
                Err(e) => match e {
                    ConfigError::JsonSyntax { path: p, message } => {
                        &&& parsed_json(source@) is None
                        &&& p@ == path@
                        &&& message@ == spec_syntax_message(path@, source@)
                    },
                    ConfigError::InvalidRuleValue { value } => {
                        &&& parsed_json(source@) matches Some(doc)
                        &&& spec_rules_of_doc(doc) matches Err(v)
                        &&& value@ == render_json(v)
                    },
                    ConfigError::SettingsType { key } => {
                        &&& parsed_json(source@) matches Some(doc)
                        &&& spec_rules_of_doc(doc) is Ok
                        &&& spec_settings_from_root(doc) == Err::<SettingsV, Seq<char>>(key@)
                    },
                },
            },
    {
        let json = match parse_json_text(source) {
            Ok(v) => v,
            Err(msg) => {
                let message = match mime_subtype_of(path) {
                    Some(st) => {
                        if str_eq(st.as_str(), "json") {
                            msg
                        } else {
                            String::from_str("only json configuration is supported")
                        }
                    },
                    None => msg.concat(
                        ", if the configuration is not a json file, please use json instead.",
                    ),
                };
                return Err(ConfigError::JsonSyntax { path: String::from_str(path), message });
            },
        };
        let rules = match parse_rules(&json) {
            Ok(r) => r,
            Err(e) => {
                return Err(e);
            },
        };
        let settings = match parse_settings_from_root(&json) {
            Ok(s) => s,
            Err(e) => {
                return Err(e);
            },
        };
        Ok(ESLintConfig { rules, settings })
    }

    /// Consumes the configuration, yielding its settings.
    pub fn settings(self) -> (r: LintSettings)
        ensures
            r@ == self@.settings,
    {
        self.settings
    }
}

} // verus!
