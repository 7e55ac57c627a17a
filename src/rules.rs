//! The rule table: each supplied rule file by name, with its compiled rule
//! when the file loaded and the rule passed its own validation.
use vstd::prelude::*;

use crate::engine::{
    examples_are_mappings, load_rule, loads_as_rule, passes_own_check, rule_text_holds,
    rule_matches, rule_matches_of, rule_negatives, rule_positives, validate_rule,
};

verus! {

/// One supplied rule file.
pub struct RuleEntry {
    /// The file name of the rule's source; it also names its output file.
    pub name: String,
    /// The compiled rule; `None` when it did not load or did not validate.
    pub rule: Option<tau_engine::Rule>,
}

/// The names of the entries whose rule is valid, in load order.
pub open spec fn valid_names(entries: Seq<RuleEntry>) -> Seq<Seq<char>>
    decreases entries.len(),
{
    if entries.len() == 0 {
        Seq::empty()
    } else {
        let rest = valid_names(entries.drop_last());
        if entries.last().rule is Some {
            rest.push(entries.last().name@)
        } else {
            rest
        }
    }
}

/// One row for each entry: its name, and whether its rule is valid.
pub open spec fn report_of(entries: Seq<RuleEntry>) -> Seq<(Seq<char>, bool)> {
    entries.map_values(|e: RuleEntry| (e.name@, e.rule is Some))
}

/// Whether some entry holds a valid rule.
pub open spec fn has_valid_rule(entries: Seq<RuleEntry>) -> bool {
    exists|i: int| 0 <= i < entries.len() && (#[trigger] entries[i]).rule is Some
}

/// Keeps a loaded rule when its validation returned `Ok(true)`.
pub fn judge(rule: tau_engine::Rule, verdict: Result<bool, tau_engine::Error>) -> (r: Option<tau_engine::Rule>)
    ensures
        r is Some <==> (verdict is Ok && verdict->Ok_0),
        r is Some ==> r->Some_0 == rule,
{
    match verdict {
        Ok(true) => Some(rule),
        _ => None,
    }
}

/// A loaded rule is kept when every example is a mapping and the rule
/// passes its own check.
pub open spec fn kept_rule(rule: tau_engine::Rule) -> Option<tau_engine::Rule> {
    if examples_are_mappings(rule) && passes_own_check(rule) {
        Some(rule)
    } else {
        None
    }
}

/// Whether a rule file's text gives a valid rule: it was read, loads as a
/// rule, and the rule is kept.
pub open spec fn text_gives_valid_rule(text: Option<String>) -> bool {
    match text {
        Some(t) => loads_as_rule(t@) && rule_text_holds(t@),
        None => false,
    }
}

/// Whether every one of the YAML examples is a mapping.
fn all_mappings(examples: &Vec<serde_yaml::Value>) -> (r: bool)
    ensures
        r == forall|i: int| 0 <= i < examples@.len() ==> crate::engine::yaml_is_mapping(#[trigger] examples@[i]),
{
    let mut i: usize = 0;
    while i < examples.len()
        invariant
            i <= examples@.len(),
            forall|j: int| 0 <= j < i ==> crate::engine::yaml_is_mapping(#[trigger] examples@[j]),
        decreases examples.len() - i,
    {
        if !examples[i].is_mapping() {
            return false;
        }
        i = i + 1;
    }
    true
}

/// Whether every example of the rule is a mapping; validation needs it.
pub fn examples_are_checkable(rule: &tau_engine::Rule) -> (r: bool)
    ensures
        r == examples_are_mappings(*rule),
{
    all_mappings(rule_positives(rule)) && all_mappings(rule_negatives(rule))
}

/// Validates a loaded rule. A rule that did not load, or with an example
/// that is not a mapping, stays out without being validated.
pub fn accept_loaded(loaded: Result<tau_engine::Rule, tau_engine::Error>) -> (r: Option<tau_engine::Rule>)
    ensures
        r == (match loaded {
            Ok(rule) => kept_rule(rule),
            Err(_) => None,
        }),
{
    match loaded {
        Ok(rule) => {
            if examples_are_checkable(&rule) {
                let verdict = validate_rule(&rule);
                judge(rule, verdict)
            } else {
                None
            }
        },
        Err(_) => None,
    }
}

/// The entry for a rule file with the given name and source text; `None`
/// for the text when the file could not be read.
pub fn load_entry(name: String, text: Option<&str>) -> (e: RuleEntry)
    ensures
        e.name@ == name@,
        (e.rule is Some) == (match text {
            Some(t) => loads_as_rule(t@) && rule_text_holds(t@),
            None => false,
        }),
{
    match text {
        Some(t) => RuleEntry { name, rule: accept_loaded(load_rule(t)) },
        None => RuleEntry { name, rule: None },
    }
}

/// The validate-only report: one row per rule file, in the order supplied,
/// with its name and whether its rule loaded and validated.
pub fn validation_report(entries: &Vec<RuleEntry>) -> (r: Vec<(String, bool)>)
    ensures
        r@.map_values(|row: (String, bool)| (row.0@, row.1)) == report_of(entries@),
{
    let mut r: Vec<(String, bool)> = Vec::new();
    let mut i: usize = 0;
    while i < entries.len()
        invariant
            i <= entries@.len(),
            r@.len() == i,
            forall|k: int|
                0 <= k < i ==> (#[trigger] r@[k]).0@ == entries@[k].name@ && r@[k].1 == (entries@[k].rule is Some),
        decreases entries.len() - i,
    {
        let e = &entries[i];
        r.push((e.name.clone(), e.rule.is_some()));
        i = i + 1;
    }
    assert(r@.map_values(|row: (String, bool)| (row.0@, row.1)) =~= report_of(entries@));
    r
}

/// The names of the valid rules, in load order.
pub fn validated_names(entries: &Vec<RuleEntry>) -> (r: Vec<String>)
    ensures
        r@.map_values(|s: String| s@) == valid_names(entries@),
{
    let mut r: Vec<String> = Vec::new();
    let mut i: usize = 0;
    while i < entries.len()
        invariant
            i <= entries@.len(),
            r@.map_values(|s: String| s@) =~= valid_names(entries@.take(i as int)),
        decreases entries.len() - i,
    {
        let e = &entries[i];
        assert(entries@.take(i + 1).drop_last() =~= entries@.take(i as int));
        if e.rule.is_some() {
            r.push(e.name.clone());
        }
        i = i + 1;
        assert(r@.map_values(|s: String| s@) =~= valid_names(entries@.take(i as int)));
    }
    assert(entries@.take(i as int) =~= entries@);
    r
}

/// Whether some entry holds a valid rule.
pub fn any_valid(entries: &Vec<RuleEntry>) -> (r: bool)
    ensures
        r == has_valid_rule(entries@),
{
    let mut i: usize = 0;
    while i < entries.len()
        invariant
            i <= entries@.len(),
            forall|j: int| 0 <= j < i ==> (#[trigger] entries@[j]).rule is None,
        decreases entries.len() - i,
    {
        if entries[i].rule.is_some() {
            return true;
        }
        i = i + 1;
    }
    false
}

/// Whether the entry holds a valid rule that matches the record.
pub open spec fn entry_matches(e: RuleEntry, record: serde_json::Value) -> bool {
    e.rule is Some && rule_matches_of(e.rule->Some_0, record)
}

/// The entries whose rule is valid and matches the record, in load order.
pub fn matching_rules(entries: &Vec<RuleEntry>, record: &serde_json::Value) -> (r: Vec<usize>)
    ensures
        forall|k: int| 0 <= k < r@.len() ==> #[trigger] r@[k] < entries@.len(),
        forall|j: int| 0 <= j < entries@.len() ==> (r@.contains(j as usize) <==> entry_matches(#[trigger] entries@[j], *record)),
        forall|k: int, m: int| 0 <= k < m < r@.len() ==> r@[k] < r@[m],
{
    let mut r: Vec<usize> = Vec::new();
    let mut i: usize = 0;
    while i < entries.len()
        invariant
            i <= entries@.len(),
            forall|k: int| 0 <= k < r@.len() ==> #[trigger] r@[k] < i,
            forall|j: int| 0 <= j < i ==> (r@.contains(j as usize) <==> entry_matches(#[trigger] entries@[j], *record)),
            forall|k: int, m: int| 0 <= k < m < r@.len() ==> r@[k] < r@[m],
        decreases entries.len() - i,
    {
        let ghost before = r@;
        match &entries[i].rule {
            Some(rule) => {
                if rule_matches(rule, record) {
                    r.push(i);
                }
            },
            None => {},
        }
        assert forall|j: int| 0 <= j <= i implies (r@.contains(j as usize) <==> entry_matches(#[trigger] entries@[j], *record)) by {
            if j < i {
                if before.contains(j as usize) {
                    let k = choose|k: int| 0 <= k < before.len() && before[k] == j as usize;
                    assert(r@[k] == j as usize);
                }
                if r@.contains(j as usize) {
                    let k = choose|k: int| 0 <= k < r@.len() && r@[k] == j as usize;
                    if k < before.len() {
                        assert(before[k] == j as usize);
                    }
                }
            } else {
                if r@.len() > before.len() {
                    assert(r@[before.len() as int] == i);
                } else {
                    assert(r@ == before);
                }
            }
        }
        i = i + 1;
    }
    r
}

} // verus!
