//! The decisions of a run: building the rule table, choosing between the
//! validate-only report, a startup failure and processing, and where each
//! matched record goes.
use vstd::prelude::*;

use crate::match_sink::{MatchSink, Route, name_views, routes};
use crate::rules::{
    RuleEntry, any_valid, has_valid_rule, load_entry, report_of, text_gives_valid_rule,
    validation_report,
};

verus! {

/// What a run does once its rules are loaded.
pub enum StartPlan {
    /// Print these rows (rule name, whether it is valid) and stop.
    Report(Vec<(String, bool)>),
    /// Fail: no rule is valid.
    NoValidRule,
    /// Read records and match them.
    Process,
}

/// The table holds one entry for each rule source, in order, under its name;
/// an entry holds a rule exactly when its text gives a valid rule.
pub open spec fn loaded_from(sources: Seq<(String, Option<String>)>, entries: Seq<RuleEntry>) -> bool {
    &&& entries.len() == sources.len()
    &&& forall|i: int|
        0 <= i < sources.len() ==> (#[trigger] entries[i]).name@ == sources[i].0@ && (entries[i].rule is Some)
            == text_gives_valid_rule(sources[i].1)
}

/// Builds the rule table from (file name, source text) pairs; the text is
/// `None` for a file that could not be read, whose rule is then invalid.
pub fn validate_rules(sources: Vec<(String, Option<String>)>) -> (entries: Vec<RuleEntry>)
    ensures
        loaded_from(sources@, entries@),
{
    let mut entries: Vec<RuleEntry> = Vec::new();
    let mut i: usize = 0;
    while i < sources.len()
        invariant
            i <= sources@.len(),
            entries@.len() == i,
            forall|k: int|
                0 <= k < i ==> (#[trigger] entries@[k]).name@ == sources@[k].0@ && (entries@[k].rule is Some)
                    == text_gives_valid_rule(sources@[k].1),
        decreases sources.len() - i,
    {
        let name = sources[i].0.clone();
        let e = match &sources[i].1 {
            Some(t) => load_entry(name, Some(t.as_str())),
            None => load_entry(name, None),
        };
        entries.push(e);
        i = i + 1;
    }
    entries
}

/// Validate-only runs report every rule; other runs fail when no rule is
/// valid, and process records otherwise.
pub fn plan_start(validate_only: bool, entries: &Vec<RuleEntry>) -> (r: StartPlan)
    ensures
        validate_only ==> (r matches StartPlan::Report(rows) && rows@.map_values(
            |row: (String, bool)| (row.0@, row.1),
        ) == report_of(entries@)),
        !validate_only ==> (r is NoValidRule <==> !has_valid_rule(entries@)),
        !validate_only ==> (r is Process <==> has_valid_rule(entries@)),
{
    if validate_only {
        StartPlan::Report(validation_report(entries))
    } else if any_valid(entries) {
        StartPlan::Process
    } else {
        StartPlan::NoValidRule
    }
}

/// The routes of a record matched by the given entries, one per entry.
pub fn deliveries(sink: &MatchSink, entries: &Vec<RuleEntry>, matched: &Vec<usize>) -> (r: Vec<Route>)
    requires
        forall|k: int| 0 <= k < matched@.len() ==> #[trigger] matched@[k] < entries@.len(),
    ensures
        r@.len() == matched@.len(),
        forall|k: int|
            0 <= k < r@.len() ==> match sink {
                MatchSink::Interactive => (#[trigger] r@[k]) is Stdout,
                MatchSink::FileSet(names) => r@[k] matches Route::Files(v) && v@ == routes(
                    name_views(names@),
                    entries@[matched@[k] as int].name@,
                ),
            },
{
    let mut r: Vec<Route> = Vec::new();
    let mut i: usize = 0;
    while i < matched.len()
        invariant
            i <= matched@.len(),
            r@.len() == i,
            forall|k: int| 0 <= k < matched@.len() ==> #[trigger] matched@[k] < entries@.len(),
            forall|k: int|
                0 <= k < i ==> match sink {
                    MatchSink::Interactive => (#[trigger] r@[k]) is Stdout,
                    MatchSink::FileSet(names) => r@[k] matches Route::Files(v) && v@ == routes(
                        name_views(names@),
                        entries@[matched@[k] as int].name@,
                    ),
                },
        decreases matched.len() - i,
    {
        r.push(sink.output_match(&entries[matched[i]].name));
        i = i + 1;
    }
    r
}

/// What became of one record, or of one write of it.
pub enum RecordOutcome {
    /// The record could not be read or decoded.
    Unreadable,
    /// The record was written wherever it had to go.
    Delivered,
    /// Writing the record failed.
    WriteFailed,
}

/// What the processing loop does next.
pub enum LoopStep {
    /// Go on with the next record.
    Continue,
    /// Report the failure, then go on with the next record.
    ReportAndContinue,
    /// Report the failure and end the run with a failure status.
    Abort,
}

/// Read and decode failures are reported and skipped; a failed write ends
/// the run.
pub fn after_record(outcome: RecordOutcome) -> (step: LoopStep)
    ensures
        outcome is Unreadable ==> step is ReportAndContinue,
        outcome is Delivered ==> step is Continue,
        outcome is WriteFailed ==> step is Abort,
{
    match outcome {
        RecordOutcome::Unreadable => LoopStep::ReportAndContinue,
        RecordOutcome::Delivered => LoopStep::Continue,
        RecordOutcome::WriteFailed => LoopStep::Abort,
    }
}

/// The validate-only report has one row per rule source, in order, under the
/// source's name, and a rule is reported valid exactly when its text was
/// read, loads as a rule, and the rule passes its own check.
pub proof fn lemma_report_row_per_rule(sources: Seq<(String, Option<String>)>, entries: Seq<RuleEntry>)
    requires
        loaded_from(sources, entries),
    ensures
        report_of(entries).len() == sources.len(),
        forall|i: int|
            0 <= i < sources.len() ==> (#[trigger] report_of(entries)[i]).0 == sources[i].0@
                && report_of(entries)[i].1 == text_gives_valid_rule(sources[i].1),
{
}

/// Whether two lists of rule sources hold the same names and texts.
pub open spec fn same_sources(a: Seq<(String, Option<String>)>, b: Seq<(String, Option<String>)>) -> bool {
    &&& a.len() == b.len()
    &&& forall|i: int|
        0 <= i < a.len() ==> (#[trigger] a[i]).0@ == b[i].0@ && (a[i].1 is Some) == (b[i].1 is Some) && (
        a[i].1 is Some ==> a[i].1->Some_0@ == b[i].1->Some_0@)
}

/// Loading the same rule files twice gives the same report twice.
pub proof fn lemma_report_is_repeatable(
    sources_a: Seq<(String, Option<String>)>,
    sources_b: Seq<(String, Option<String>)>,
    first: Seq<RuleEntry>,
    second: Seq<RuleEntry>,
)
    requires
        same_sources(sources_a, sources_b),
        loaded_from(sources_a, first),
        loaded_from(sources_b, second),
    ensures
        report_of(first) == report_of(second),
{
    assert forall|i: int| 0 <= i < first.len() implies ((#[trigger] first[i]).rule is Some) == (second[i].rule is Some) by {
        assert(text_gives_valid_rule(sources_a[i].1) == text_gives_valid_rule(sources_b[i].1));
    }
    assert(report_of(first) =~= report_of(second));
}

} // verus!
