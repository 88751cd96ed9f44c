use crate::config::{ESLintConfig, RuleEntryV};
use crate::json::{clone_json, JsonV};
use crate::severity::{opt_jv, AllowWarnDeny};
use vstd::prelude::*;

verus! {

/// Model of an active rule instance.
pub struct RuleInstV {
    pub plugin_name: Seq<char>,
    pub rule_name: Seq<char>,
    pub severity: AllowWarnDeny,
    pub config: Option<JsonV>,
}

/// One rule of the caller's active rule set: a stable (plugin, rule)
/// identity with a severity and an options payload.
#[derive(Debug, PartialEq, Eq)]
pub struct RuleInstance {
    pub plugin_name: String,
    pub rule_name: String,
    pub severity: AllowWarnDeny,
    pub config: Option<crate::json::JsonValue>,
}

impl View for RuleInstance {
    type V = RuleInstV;

    open spec fn view(&self) -> RuleInstV {
        RuleInstV {
            plugin_name: self.plugin_name@,
            rule_name: self.rule_name@,
            severity: self.severity,
            config: opt_jv(self.config),
        }
    }
}

/// The models of an active rule list.
pub open spec fn insts_view(rs: Seq<RuleInstance>) -> Seq<RuleInstV> {
    Seq::new(rs.len(), |i: int| rs[i]@)
}

/// Copy of an active rule that keeps its model.
pub fn clone_rule_instance(r: &RuleInstance) -> (c: RuleInstance)
    ensures
        c@ == r@,
{
    RuleInstance {
        plugin_name: r.plugin_name.clone(),
        rule_name: r.rule_name.clone(),
        severity: r.severity,
        config: match &r.config {
            Some(v) => Some(clone_json(v)),
            None => None,
        },
    }
}

/// The first configured entry whose normalized identity equals the given
/// one, in document order.
pub open spec fn first_match(
    entries: Seq<RuleEntryV>,
    plugin: Seq<char>,
    rule: Seq<char>,
) -> Option<RuleEntryV>
    decreases entries.len(),
{
    if entries.len() == 0 {
        None
    } else if entries[0].plugin_name == plugin && entries[0].rule_name == rule {
        Some(entries[0])
    } else {
        first_match(entries.drop_first(), plugin, rule)
    }
}

/// What one active rule becomes under a configuration: removed when its
/// first matching entry turns it off, reconfigured with the entry's severity
/// and options when the entry warns or denies, untouched without a match.
pub open spec fn apply_to(entries: Seq<RuleEntryV>, r: RuleInstV) -> Seq<RuleInstV> {
    match first_match(entries, r.plugin_name, r.rule_name) {
        Some(e) => if e.severity == AllowWarnDeny::Allow {
            Seq::empty()
        } else {
            seq![
                RuleInstV {
                    plugin_name: r.plugin_name,
                    rule_name: r.rule_name,
                    severity: e.severity,
                    config: e.config,
                },
            ]
        },
        None => seq![r],
    }
}

/// The override of a whole active set: each rule is removed, reconfigured or
/// kept on its own, and the set's order is kept. A configured entry that
/// matches no active rule has no effect.
pub open spec fn spec_override(entries: Seq<RuleEntryV>, rules: Seq<RuleInstV>) -> Seq<RuleInstV>
    decreases rules.len(),
{
    if rules.len() == 0 {
        Seq::empty()
    } else {
        spec_override(entries, rules.drop_last()) + apply_to(entries, rules.last())
    }
}

proof fn lemma_first_match_step(entries: Seq<RuleEntryV>, plugin: Seq<char>, rule: Seq<char>, i: int)
    requires
        0 <= i < entries.len(),
    ensures
        (entries[i].plugin_name == plugin && entries[i].rule_name == rule) ==> first_match(
            entries.skip(i),
            plugin,
            rule,
        ) == Some(entries[i]),
        !(entries[i].plugin_name == plugin && entries[i].rule_name == rule) ==> first_match(
            entries.skip(i),
            plugin,
            rule,
        ) == first_match(entries.skip(i + 1), plugin, rule),
{
    assert(entries.skip(i)[0] == entries[i]);
    assert(entries.skip(i).drop_first() =~= entries.skip(i + 1));
}

impl ESLintConfig {
    /// Index of the first configured entry matching the given identity.
    fn find_rule_index(&self, plugin: &str, rule: &str) -> (r: Option<usize>)
        ensures
            match r {
                Some(i) => i < self.rules@.len() && first_match(self@.rules, plugin@, rule@)
                    == Some(self.rules@[i as int]@),
                None => first_match(self@.rules, plugin@, rule@) is None,
            },
    {
        proof {
            assert(self@.rules.skip(0) =~= self@.rules);
        }
        let n = self.rules.len();
        let mut i: usize = 0;
        while i < n
            invariant
                n == self.rules@.len(),
                self@.rules.len() == n,
                forall|j: int| 0 <= j < n ==> #[trigger] self@.rules[j] == self.rules@[j]@,
                0 <= i <= n,
                first_match(self@.rules, plugin@, rule@) == first_match(
                    self@.rules.skip(i as int),
                    plugin@,
                    rule@,
                ),
            decreases n - i,
        {
            proof {
                lemma_first_match_step(self@.rules, plugin@, rule@, i as int);
            }
            let entry = &self.rules[i];
            if crate::strutil::str_eq(entry.plugin_name.as_str(), plugin)
                && crate::strutil::str_eq(entry.rule_name.as_str(), rule) {
                return Some(i);
            }
            i += 1;
        }
        proof {
            assert(self@.rules.skip(n as int) =~= Seq::<RuleEntryV>::empty());
        }
        None
    }

    /// Applies the configuration's overrides to a caller-owned active rule
    /// set: every active rule is looked up among the configured entries, and
    /// is removed, reconfigured, or left alone; entries that match no active
    /// rule add nothing.
    #[verifier::loop_isolation(false)]
    pub fn override_rules(&self, rules_to_override: &mut Vec<RuleInstance>)
        ensures
            insts_view(final(rules_to_override)@) == spec_override(
                self@.rules,
                insts_view(old(rules_to_override)@),
            ),
    {
        let mut out: Vec<RuleInstance> = Vec::new();
        proof {
            assert(insts_view(out@) =~= Seq::<RuleInstV>::empty());
            assert(insts_view(rules_to_override@).take(0) =~= Seq::<RuleInstV>::empty());
        }
        let n = rules_to_override.len();
        let mut i: usize = 0;
        while i < n
            invariant
                rules_to_override@ == old(rules_to_override)@,
                n == rules_to_override@.len(),
                0 <= i <= n,
                insts_view(out@) == spec_override(
                    self@.rules,
                    insts_view(rules_to_override@).take(i as int),
                ),
            decreases n - i,
        {
            let ghost big = insts_view(rules_to_override@);
            let rule = &rules_to_override[i];
            match self.find_rule_index(rule.plugin_name.as_str(), rule.rule_name.as_str()) {
                Some(k) => {
                    let entry = &self.rules[k];
                    match entry.severity {
                        AllowWarnDeny::Allow => {},
                        _ => {
                            let config = match &entry.config {
                                Some(c) => Some(clone_json(c)),
                                None => None,
                            };
                            let replacement = RuleInstance {
                                plugin_name: rule.plugin_name.clone(),
                                rule_name: rule.rule_name.clone(),
                                severity: entry.severity,
                                config,
                            };
                            proof {
                                assert(seq![replacement@] =~= apply_to(self@.rules, big[i as int]));
                            }
                            out.push(replacement);
                        },
                    }
                },
                None => {
                    let kept = clone_rule_instance(rule);
                    proof {
                        assert(seq![kept@] =~= apply_to(self@.rules, big[i as int]));
                    }
                    out.push(kept);
                },
            }
            proof {
                assert(big.take(i + 1).drop_last() =~= big.take(i as int));
                assert(big.take(i + 1).last() == big[i as int]);
                assert(insts_view(out@) =~= spec_override(self@.rules, big.take(i + 1)));
            }
            i += 1;
        }
        proof {
            assert(insts_view(rules_to_override@).take(n as int) =~= insts_view(
                rules_to_override@,
            ));
        }
        *rules_to_override = out;
    }
}

proof fn lemma_override_single(entries: Seq<RuleEntryV>, x: RuleInstV)
    ensures
        spec_override(entries, seq![x]) == apply_to(entries, x),
{
    assert(seq![x].len() == 1);
    assert(seq![x].drop_last() =~= Seq::<RuleInstV>::empty());
    assert(seq![x].last() == x);
    assert(spec_override(entries, Seq::<RuleInstV>::empty()) =~= Seq::<RuleInstV>::empty());
    assert(Seq::<RuleInstV>::empty() + apply_to(entries, x) =~= apply_to(entries, x));
}

proof fn lemma_override_append(entries: Seq<RuleEntryV>, r1: Seq<RuleInstV>, r2: Seq<RuleInstV>)
    ensures
        spec_override(entries, r1 + r2) == spec_override(entries, r1) + spec_override(entries, r2),
    decreases r2.len(),
{
    if r2.len() == 0 {
        assert(r1 + r2 =~= r1);
        assert(spec_override(entries, r1) + spec_override(entries, r2) =~= spec_override(
            entries,
            r1,
        ));
    } else {
        assert((r1 + r2).drop_last() =~= r1 + r2.drop_last());
        assert((r1 + r2).last() == r2.last());
        lemma_override_append(entries, r1, r2.drop_last());
        assert(spec_override(entries, r1) + (spec_override(entries, r2.drop_last()) + apply_to(
            entries,
            r2.last(),
        )) =~= (spec_override(entries, r1) + spec_override(entries, r2.drop_last())) + apply_to(
            entries,
            r2.last(),
        ));
    }
}

/// Overriding is idempotent: applying the same configuration to an active
/// set that it has already overridden yields the same set as applying it
/// once.
pub proof fn lemma_override_idempotent(entries: Seq<RuleEntryV>, rules: Seq<RuleInstV>)
    ensures
        spec_override(entries, spec_override(entries, rules)) == spec_override(entries, rules),
    decreases rules.len(),
{
    if rules.len() > 0 {
        let pre = rules.drop_last();
        let r = rules.last();
        lemma_override_idempotent(entries, pre);
        lemma_override_append(entries, spec_override(entries, pre), apply_to(entries, r));
        match first_match(entries, r.plugin_name, r.rule_name) {
            Some(e) => {
                if e.severity == AllowWarnDeny::Allow {
                    assert(spec_override(entries, apply_to(entries, r)) =~= apply_to(entries, r));
                } else {
                    let replaced = RuleInstV {
                        plugin_name: r.plugin_name,
                        rule_name: r.rule_name,
                        severity: e.severity,
                        config: e.config,
                    };
                    lemma_override_single(entries, replaced);
                    assert(apply_to(entries, replaced) =~= apply_to(entries, r));
                }
            },
            None => {
                lemma_override_single(entries, r);
            },
        }
    }
}

} // verus!
