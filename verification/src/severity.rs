use crate::errors::ConfigError;
use crate::json::{clone_json, jv, jv_arr, lemma_jv_arr, JsonV, JsonValue};
use crate::render::{json_to_string, render_json};
use crate::strutil::str_eq;
use vstd::prelude::*;

verus! {

/// Activation level of a rule: disabled, warning, or error-level failure.
#[derive(Clone, Copy, Debug, PartialEq, Eq, Structural)]
pub enum AllowWarnDeny {
    Allow,
    Warn,
    Deny,
}

/// Severity of a scalar rule value: the strings "off"/"warn"/"error" and the
/// JSON numbers 0/1/2; anything else does not decode.
pub open spec fn spec_severity(v: JsonV) -> Option<AllowWarnDeny> {
    match v {
        JsonV::Str(s) => if s == "off"@ {
            Some(AllowWarnDeny::Allow)
        } else if s == "warn"@ {
            Some(AllowWarnDeny::Warn)
        } else if s == "error"@ {
            Some(AllowWarnDeny::Deny)
        } else {
            None
        },
        JsonV::Num(t) => if t == "0"@ {
            Some(AllowWarnDeny::Allow)
        } else if t == "1"@ {
            Some(AllowWarnDeny::Warn)
        } else if t == "2"@ {
            Some(AllowWarnDeny::Deny)
        } else {
            None
        },
        _ => None,
    }
}

/// Decodes a severity scalar.
pub fn severity_of(v: &JsonValue) -> (r: Option<AllowWarnDeny>)
    ensures
        r == spec_severity(jv(*v)),
{
    match v {
        JsonValue::Str(s) => {
            if str_eq(s.as_str(), "off") {
                Some(AllowWarnDeny::Allow)
            } else if str_eq(s.as_str(), "warn") {
                Some(AllowWarnDeny::Warn)
            } else if str_eq(s.as_str(), "error") {
                Some(AllowWarnDeny::Deny)
            } else {
                None
            }
        },
        JsonValue::Num(t) => {
            if str_eq(t.as_str(), "0") {
                Some(AllowWarnDeny::Allow)
            } else if str_eq(t.as_str(), "1") {
                Some(AllowWarnDeny::Warn)
            } else if str_eq(t.as_str(), "2") {
                Some(AllowWarnDeny::Deny)
            } else {
                None
            }
        },
        _ => None,
    }
}

/// The options payload of a rule value in array form: the elements at
/// indices 1 and 2, and nothing beyond them; absent when there are none.
pub open spec fn spec_options(es: Seq<JsonV>) -> Option<JsonV> {
    if es.len() <= 1 {
        None
    } else {
        Some(JsonV::Arr(es.subrange(1, if es.len() < 3 { es.len() as int } else { 3 })))
    }
}

/// The model of an optional JSON value.
pub open spec fn opt_jv(o: Option<JsonValue>) -> Option<JsonV> {
    match o {
        Some(x) => Some(jv(x)),
        None => None,
    }
}

/// Severity and options of a rule's configured value: a scalar decodes alone,
/// an array decodes its first element and keeps up to two options.
pub open spec fn spec_resolve_rule_value(v: JsonV) -> Option<(AllowWarnDeny, Option<JsonV>)> {
    match v {
        JsonV::Str(_) | JsonV::Num(_) => match spec_severity(v) {
            Some(s) => Some((s, None)),
            None => None,
        },
        JsonV::Arr(es) => if es.len() == 0 {
            None
        } else {
            match spec_severity(es[0]) {
                Some(s) => Some((s, spec_options(es))),
                None => None,
            }
        },
        _ => None,
    }
}

/// A rule value that is neither a severity scalar nor an array, and the
/// empty array, never decode.
pub proof fn lemma_invalid_rule_value(v: JsonV)
    requires
        match v {
            JsonV::Str(_) | JsonV::Num(_) => false,
            JsonV::Arr(es) => es.len() == 0,
            _ => true,
        },
    ensures
        spec_resolve_rule_value(v) is None,
{
}

/// An array rule value keeps at most the elements at indices 1 and 2 as its
/// options; anything beyond them is dropped.
pub proof fn lemma_options_truncate(es: Seq<JsonV>)
    requires
        es.len() >= 3,
    ensures
        spec_options(es) == Some(JsonV::Arr(seq![es[1], es[2]])),
{
    assert(es.subrange(1, 3) =~= seq![es[1], es[2]]);
}

/// Resolves the level of a rule and its options; a value in no recognized
/// form is rejected, carrying its textual form.
#[verifier::loop_isolation(false)]
pub fn resolve_rule_value(value: &JsonValue) -> (r: Result<
    (AllowWarnDeny, Option<JsonValue>),
    ConfigError,
>)
    ensures
        match r {
            Ok(p) => spec_resolve_rule_value(jv(*value)) == Some((p.0, opt_jv(p.1))),
            Err(e) => {
                &&& spec_resolve_rule_value(jv(*value)) is None
                &&& e matches ConfigError::InvalidRuleValue { value: t } && t@ == render_json(
                    jv(*value),
                )
            },
        },
{
    match value {
        JsonValue::Str(_) | JsonValue::Num(_) => {
            match severity_of(value) {
                Some(sev) => Ok((sev, None)),
                None => Err(ConfigError::InvalidRuleValue { value: json_to_string(value) }),
            }
        },
        JsonValue::Array(es) => {
            proof {
                lemma_jv_arr(es@);
            }
            if es.len() == 0 {
                return Err(ConfigError::InvalidRuleValue { value: json_to_string(value) });
            }
            match severity_of(&es[0]) {
                Some(sev) => {
                    let end = if es.len() < 3 {
                        es.len()
                    } else {
                        3
                    };
                    let mut opts: Vec<JsonValue> = Vec::new();
                    let mut i: usize = 1;
                    while i < end
                        invariant
                            1 <= i <= end,
                            opts@.len() == i - 1,
                            forall|j: int|
                                0 <= j < i - 1 ==> jv(#[trigger] opts@[j]) == jv_arr(es@)[j + 1],
                        decreases end - i,
                    {
                        opts.push(clone_json(&es[i]));
                        i += 1;
                    }
                    if opts.len() == 0 {
                        Ok((sev, None))
                    } else {
                        proof {
                            lemma_jv_arr(opts@);
                            assert(jv_arr(opts@) =~= jv_arr(es@).subrange(
                                1,
                                if jv_arr(es@).len() < 3 {
                                    jv_arr(es@).len() as int
                                } else {
                                    3
                                },
                            ));
                        }
                        Ok((sev, Some(JsonValue::Array(opts))))
                    }
                },
                None => Err(ConfigError::InvalidRuleValue { value: json_to_string(value) }),
            }
        },
        _ => Err(ConfigError::InvalidRuleValue { value: json_to_string(value) }),
    }
}

} // verus!
