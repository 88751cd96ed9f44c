use crate::errors::ConfigError;
use crate::json::{jv, jv_obj, lemma_jv_obj, obj_get, json_obj_get, JsonV, JsonValue};
use vstd::prelude::*;

verus! {

/// Model of the accessibility-plugin settings.
pub struct JsxA11yV {
    pub polymorphic_prop_name: Option<Seq<char>>,
    pub components: Seq<(Seq<char>, Seq<char>)>,
}

/// Model of the whole settings structure.
pub struct SettingsV {
    pub jsx_a11y: JsxA11yV,
}

/// Accessibility-plugin settings: an optional polymorphic prop name and a
/// component-name to role/element mapping, kept in document order.
#[derive(Debug)]
pub struct JsxA11y {
    pub polymorphic_prop_name: Option<String>,
    pub components: Vec<(String, String)>,
}

/// Plugin settings of a configuration document.
#[derive(Debug)]
pub struct LintSettings {
    pub jsx_a11y: JsxA11y,
}

/// The models of a component mapping's entries.
pub open spec fn comps_view(v: Seq<(String, String)>) -> Seq<(Seq<char>, Seq<char>)> {
    Seq::new(v.len(), |i: int| (v[i].0@, v[i].1@))
}

impl View for JsxA11y {
    type V = JsxA11yV;

    open spec fn view(&self) -> JsxA11yV {
        JsxA11yV {
            polymorphic_prop_name: match self.polymorphic_prop_name {
                Some(s) => Some(s@),
                None => None,
            },
            components: comps_view(self.components@),
        }
    }
}

impl View for LintSettings {
    type V = SettingsV;

    open spec fn view(&self) -> SettingsV {
        SettingsV { jsx_a11y: self.jsx_a11y@ }
    }
}

/// The settings of a document that configures nothing.
pub open spec fn default_settings() -> SettingsV {
    SettingsV {
        jsx_a11y: JsxA11yV { polymorphic_prop_name: None, components: Seq::empty() },
    }
}

impl Default for LintSettings {
    /// The explicit all-default settings value.
    fn default() -> (r: Self)
        ensures
            r@ == default_settings(),
    {
        let r = LintSettings {
            jsx_a11y: JsxA11y { polymorphic_prop_name: None, components: Vec::new() },
        };
        proof {
            assert(comps_view(r.jsx_a11y.components@) =~= Seq::<(Seq<char>, Seq<char>)>::empty());
        }
        r
    }
}

/// Whether every component mapping value is a string.
pub open spec fn components_ok(ms: Seq<(Seq<char>, JsonV)>) -> bool {
    forall|i: int| 0 <= i < ms.len() ==> (#[trigger] ms[i]).1 is Str
}

/// The component mapping read off an object's entries, when they are all
/// strings.
pub open spec fn comps_of(ms: Seq<(Seq<char>, JsonV)>) -> Seq<(Seq<char>, Seq<char>)> {
    Seq::new(ms.len(), |i: int| (ms[i].0, ms[i].1->Str_0))
}

/// Index of the first component entry whose value is not a string.
pub open spec fn first_non_str(ms: Seq<(Seq<char>, JsonV)>) -> int
    decreases ms.len(),
{
    if ms.len() == 0 {
        0
    } else if !(ms[0].1 is Str) {
        0
    } else {
        1 + first_non_str(ms.drop_first())
    }
}

pub proof fn lemma_first_non_str_at(ms: Seq<(Seq<char>, JsonV)>, i: int)
    requires
        0 <= i <= ms.len(),
        forall|j: int| 0 <= j < i ==> (#[trigger] ms[j]).1 is Str,
        i < ms.len() ==> !(ms[i].1 is Str),
    ensures
        first_non_str(ms) == i,
    decreases i,
{
    if i == 0 {
        if ms.len() > 0 {
            assert(!(ms[0].1 is Str));
        }
    } else {
        assert(ms[0].1 is Str);
        let t = ms.drop_first();
        assert forall|j: int| 0 <= j < i - 1 implies (#[trigger] t[j]).1 is Str by {
            assert(t[j] == ms[j + 1]);
        }
        if i - 1 < t.len() {
            assert(t[i - 1] == ms[i]);
        }
        lemma_first_non_str_at(t, i - 1);
    }
}

/// The component mapping under an accessibility settings object: absent or
/// non-object entries yield an empty mapping, a non-string component value is
/// a decode error carrying that component's name.
pub open spec fn spec_components_of(a11y: Seq<(Seq<char>, JsonV)>) -> Result<
    Seq<(Seq<char>, Seq<char>)>,
    Seq<char>,
> {
    match obj_get(a11y, "components"@) {
        Some(JsonV::Obj(cs)) => if components_ok(cs) {
            Ok(comps_of(cs))
        } else {
            Err(cs[first_non_str(cs)].0)
        },
        _ => Ok(Seq::empty()),
    }
}

/// The polymorphic prop name under an accessibility settings object, when it
/// is present as a string.
pub open spec fn spec_poly_of(a11y: Seq<(Seq<char>, JsonV)>) -> Option<Seq<char>> {
    match obj_get(a11y, "polymorphicPropName"@) {
        Some(JsonV::Str(s)) => Some(s),
        _ => None,
    }
}

/// What the settings extractor yields for the value under a document's
/// "settings" key: defaults when the shape does not match, an error only for
/// a non-string component value.
pub open spec fn spec_parse_settings(v: JsonV) -> Result<SettingsV, Seq<char>> {
    match v {
        JsonV::Obj(root) => match obj_get(root, "jsx-a11y"@) {
            Some(JsonV::Obj(a11y)) => match spec_components_of(a11y) {
                Ok(components) => Ok(
                    SettingsV {
                        jsx_a11y: JsxA11yV {
                            polymorphic_prop_name: spec_poly_of(a11y),
                            components,
                        },
                    },
                ),
                Err(k) => Err(k),
            },
            _ => Ok(default_settings()),
        },
        _ => Ok(default_settings()),
    }
}

/// Reads the accessibility-plugin settings out of the value under a
/// document's "settings" key.
#[verifier::loop_isolation(false)]
pub fn parse_settings(setting_value: &JsonValue) -> (r: Result<LintSettings, ConfigError>)
    ensures
        match r {
            Ok(s) => spec_parse_settings(jv(*setting_value)) == Ok::<SettingsV, Seq<char>>(s@),
            Err(e) => e matches ConfigError::SettingsType { key } && spec_parse_settings(
                jv(*setting_value),
            ) == Err::<SettingsV, Seq<char>>(key@),
        },
{
    if let JsonValue::Object(root) = setting_value {
        if let Some(a11y_value) = json_obj_get(root, "jsx-a11y") {
            if let JsonValue::Object(a11y) = a11y_value {
                let mut components: Vec<(String, String)> = Vec::new();
                if let Some(comp_value) = json_obj_get(a11y, "components") {
                    if let JsonValue::Object(cs) = comp_value {
                        proof {
                            lemma_jv_obj(cs@);
                        }
                        let n = cs.len();
                        let mut i: usize = 0;
                        while i < n
                            invariant
                                0 <= i <= n,
                                components@.len() == i,
                                forall|j: int|
                                    0 <= j < i ==> (#[trigger] jv_obj(cs@)[j]).1 is Str,
                                forall|j: int|
                                    0 <= j < i ==> (#[trigger] components@[j]).0@ == jv_obj(
                                        cs@,
                                    )[j].0 && components@[j].1@ == jv_obj(cs@)[j].1->Str_0,
                            decreases n - i,
                        {
                            match &cs[i].1 {
                                JsonValue::Str(s) => {
                                    components.push((cs[i].0.clone(), s.clone()));
                                },
                                _ => {
                                    proof {
                                        lemma_first_non_str_at(jv_obj(cs@), i as int);
                                    }
                                    return Err(
                                        ConfigError::SettingsType { key: cs[i].0.clone() },
                                    );
                                },
                            }
                            i += 1;
                        }
                        proof {
                            lemma_first_non_str_at(jv_obj(cs@), n as int);
                            assert(comps_view(components@) =~= comps_of(jv_obj(cs@)));
                        }
                    }
                }
                proof {
                    if components@.len() == 0 {
                        assert(comps_view(components@) =~= Seq::<(Seq<char>, Seq<char>)>::empty());
                    }
                }
                let polymorphic_prop_name: Option<String> = match json_obj_get(
                    a11y,
                    "polymorphicPropName",
                ) {
                    Some(poly_value) => match poly_value {
                        JsonValue::Str(s) => Some(s.clone()),
                        _ => None,
                    },
                    None => None,
                };
                return Ok(LintSettings { jsx_a11y: JsxA11y { polymorphic_prop_name, components } });
            }
        }
    }
    Ok(LintSettings::default())
}

/// What the settings extractor yields for a whole document: the extraction
/// of its "settings" value, or the defaults when the document is not an
/// object or has no such key.
pub open spec fn spec_settings_from_root(doc: JsonV) -> Result<SettingsV, Seq<char>> {
    match doc {
        JsonV::Obj(root) => match obj_get(root, "settings"@) {
            Some(sv) => spec_parse_settings(sv),
            None => Ok(default_settings()),
        },
        _ => Ok(default_settings()),
    }
}

/// Reads the plugin settings out of a whole configuration document.
pub fn parse_settings_from_root(root_json: &JsonValue) -> (r: Result<LintSettings, ConfigError>)
    ensures
        match r {
            Ok(s) => spec_settings_from_root(jv(*root_json)) == Ok::<SettingsV, Seq<char>>(s@),
            Err(e) => e matches ConfigError::SettingsType { key } && spec_settings_from_root(
                jv(*root_json),
            ) == Err::<SettingsV, Seq<char>>(key@),
        },
{
    if let JsonValue::Object(root) = root_json {
        if let Some(settings_value) = json_obj_get(root, "settings") {
            return parse_settings(settings_value);
        }
    }
    Ok(LintSettings::default())
}

/// A document without a "settings" key, and a settings value without the
/// accessibility-plugin sub-key, both yield the default settings.
pub proof fn lemma_missing_settings_default(doc: JsonV, sv: JsonV)
    ensures
        (doc matches JsonV::Obj(root) && obj_get(root, "settings"@) is None)
            ==> spec_settings_from_root(doc) == Ok::<SettingsV, Seq<char>>(default_settings()),
        (sv matches JsonV::Obj(o) && obj_get(o, "jsx-a11y"@) is None) ==> spec_parse_settings(sv)
            == Ok::<SettingsV, Seq<char>>(default_settings()),
{
}

} // verus!
