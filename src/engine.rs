//! The outside capabilities the library relies on: JSON decoding and encoding
//! (serde_json), YAML example documents (serde_yaml), and rule compilation, validation and matching (tau-engine).
use vstd::prelude::*;

verus! {

/// A decoded JSON record.
#[verifier::external_type_specification]
#[verifier::external_body]
pub struct ExJsonValue(serde_json::Value);

/// The error serde_json reports when a line is not one JSON value.
#[verifier::external_type_specification]
#[verifier::external_body]
pub struct ExJsonError(serde_json::Error);

/// A compiled rule.
#[verifier::external_type_specification]
#[verifier::external_body]
pub struct ExRule(tau_engine::Rule);

/// A YAML value: one of a rule's example documents.
#[verifier::external_type_specification]
#[verifier::external_body]
pub struct ExYamlValue(serde_yaml::Value);

/// The error tau-engine reports when a rule does not load or does not validate.
#[verifier::external_type_specification]
#[verifier::external_body]
pub struct ExRuleError(tau_engine::Error);

/// The whitespace that JSON allows around a value.
pub open spec fn is_json_space(c: char) -> bool {
    c == ' ' || c == '\t' || c == '\n' || c == '\r'
}

/// Whether the text holds nothing but JSON whitespace (the empty text included).
pub open spec fn is_blank(s: Seq<char>) -> bool {
    forall|i: int| 0 <= i < s.len() ==> is_json_space(#[trigger] s[i])
}

/// What serde_json decodes from the text: a value, or `None` when the text
/// is not one JSON value.
pub uninterp spec fn decoded_json(s: Seq<char>) -> Option<serde_json::Value>;

/// The compact JSON text serde_json writes for a value.
pub uninterp spec fn json_text_of(v: serde_json::Value) -> Seq<char>;

/// Whether tau-engine reads the YAML text as a rule.
pub uninterp spec fn loads_as_rule(text: Seq<char>) -> bool;

/// Whether the rule read from the text has only mappings as examples and
/// passes its own check. Two loads of one text may differ in the order of
/// their internal hash maps, but not in their examples or in this check.
pub uninterp spec fn rule_text_holds(text: Seq<char>) -> bool;

/// A rule's true-positive examples.
pub uninterp spec fn positives_of(rule: tau_engine::Rule) -> Seq<serde_yaml::Value>;

/// A rule's true-negative examples.
pub uninterp spec fn negatives_of(rule: tau_engine::Rule) -> Seq<serde_yaml::Value>;

/// Whether a YAML value is a mapping.
pub uninterp spec fn yaml_is_mapping(v: serde_yaml::Value) -> bool;

/// Whether every example of the rule is a mapping, as validation needs.
pub open spec fn examples_are_mappings(rule: tau_engine::Rule) -> bool {
    &&& forall|i: int| 0 <= i < positives_of(rule).len() ==> yaml_is_mapping(#[trigger] positives_of(rule)[i])
    &&& forall|i: int| 0 <= i < negatives_of(rule).len() ==> yaml_is_mapping(#[trigger] negatives_of(rule)[i])
}

/// Whether the rule's detection accepts its true positives and rejects its
/// true negatives.
pub uninterp spec fn passes_own_check(rule: tau_engine::Rule) -> bool;

/// Whether the rule matches the JSON record.
pub uninterp spec fn rule_matches_of(rule: tau_engine::Rule, record: serde_json::Value) -> bool;

/// Relies on serde_json::from_str: decodes one JSON value; it skips leading
/// JSON whitespace and fails at the end of the input when no value follows.
#[verifier::external_body]
pub(crate) fn parse_json(s: &str) -> (r: Result<serde_json::Value, serde_json::Error>)
    ensures
        (r is Ok) == (decoded_json(s@) is Some),
        r is Ok ==> r->Ok_0 == decoded_json(s@)->Some_0,
        is_blank(s@) ==> r is Err,
{
    serde_json::from_str(s)
}

/// Relies on serde_json's `Display` for `Value` (compact form): strings are
/// escaped (control characters among them) and no whitespace is written
/// between tokens, so neither a line feed nor a carriage return occurs.
#[verifier::external_body]
pub(crate) fn json_text(v: &serde_json::Value) -> (r: String)
    ensures
        r@ == json_text_of(*v),
        forall|i: int| 0 <= i < r@.len() ==> #[trigger] r@[i] != '\n' && r@[i] != '\r',
{
    v.to_string()
}

/// Relies on tau_engine::Rule::from_str: deserialises a rule from YAML text.
/// Whether it succeeds, the examples it reads, and the outcome of the
/// rule's check on them depend on the text alone.
#[verifier::external_body]
pub(crate) fn load_rule(text: &str) -> (r: Result<tau_engine::Rule, tau_engine::Error>)
    ensures
        (r is Ok) == loads_as_rule(text@),
        r is Ok ==> (examples_are_mappings(r->Ok_0) && passes_own_check(r->Ok_0)) == rule_text_holds(text@),
{
    tau_engine::Rule::from_str(text)
}

/// Reads the rule's public `true_positives` field.
#[verifier::external_body]
pub(crate) fn rule_positives(rule: &tau_engine::Rule) -> (r: &Vec<serde_yaml::Value>)
    ensures
        r@ == positives_of(*rule),
{
    &rule.true_positives
}

/// Reads the rule's public `true_negatives` field.
#[verifier::external_body]
pub(crate) fn rule_negatives(rule: &tau_engine::Rule) -> (r: &Vec<serde_yaml::Value>)
    ensures
        r@ == negatives_of(*rule),
{
    &rule.true_negatives
}

/// Relies on serde_yaml::Value::is_mapping: `as_mapping().is_some()`.
pub assume_specification[ serde_yaml::Value::is_mapping ](v: &serde_yaml::Value) -> (r: bool)
    ensures
        r == yaml_is_mapping(*v),
;

/// Relies on tau_engine::Rule::validate: checks the rule's detection against
/// its own true positives and negatives, and returns `Ok(true)` when all
/// agree, an error otherwise. It unwraps each example with `as_mapping`, so
/// every example must be a mapping.
#[verifier::external_body]
pub(crate) fn validate_rule(rule: &tau_engine::Rule) -> (r: Result<bool, tau_engine::Error>)
    requires
        examples_are_mappings(*rule),
    ensures
        r is Ok ==> r->Ok_0,
        (r is Ok) == passes_own_check(*rule),
{
    rule.validate()
}

/// Relies on tau_engine::Rule::matches: evaluates the rule on a JSON document.
#[verifier::external_body]
pub(crate) fn rule_matches(rule: &tau_engine::Rule, record: &serde_json::Value) -> (r: bool)
    ensures
        r == rule_matches_of(*rule, *record),
{
    rule.matches(record)
}

} // verus!
