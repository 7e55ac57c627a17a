use tau_cli::driver::{after_record, deliveries, plan_start, validate_rules, LoopStep, RecordOutcome, StartPlan};
use tau_cli::match_sink::{open_policy, record_line, MatchSink, OutputTarget, Route};
use tau_cli::record_source::{decode_line, trim_line, RecordSource, SourceAction, SourceEvent};
use tau_cli::rules::{
    accept_loaded, any_valid, examples_are_checkable, judge, load_entry, matching_rules, validated_names,
    validation_report,
};

const MATCHES_A1: &str = "detection:\n  A:\n    a: 1\n  condition: A\ntrue_positives:\n  - a: 1\ntrue_negatives:\n  - a: 2\n";
const MATCHES_B: &str = "detection:\n  A:\n    b: 'x*'\n  condition: A\ntrue_positives:\n  - b: xyz\ntrue_negatives:\n  - b: abc\n";
const BROKEN: &str = "detection: [unclosed\n";
const SCALAR_EXAMPLE: &str = "detection:\n  A:\n    a: 1\n  condition: A\ntrue_positives:\n  - 1\ntrue_negatives: []\n";
const FAILS_OWN_CHECK: &str = "detection:\n  A:\n    a: 1\n  condition: A\ntrue_positives:\n  - a: 5\ntrue_negatives: []\n";

fn record(text: &str) -> serde_json::Value {
    serde_json::from_str(text).unwrap()
}

fn sources(pairs: &[(&str, &str)]) -> Vec<(String, Option<String>)> {
    pairs.iter().map(|(n, t)| (n.to_string(), Some(t.to_string()))).collect()
}

/// Serves the source as a reader would, with files given by index.
fn drain(source: &mut RecordSource<usize>, first: usize, files: &[Vec<&str>], fail_open: &[usize]) -> Vec<Result<String, String>> {
    let mut out = Vec::new();
    let mut cur: Vec<String> = files[first].iter().map(|s| s.to_string()).collect();
    let mut pos = 0;
    let mut event = SourceEvent::Pull;
    loop {
        match source.step(event) {
            SourceAction::ReadLine => {
                if pos < cur.len() {
                    event = SourceEvent::Line(cur[pos].clone());
                    pos += 1;
                } else {
                    event = SourceEvent::End;
                }
            }
            SourceAction::Open(i) => {
                if fail_open.contains(&i) {
                    event = SourceEvent::OpenFailed;
                } else {
                    cur = files[i].iter().map(|s| s.to_string()).collect();
                    pos = 0;
                    event = SourceEvent::Opened;
                }
            }
            SourceAction::Yield(l) => {
                out.push(Ok(l));
                event = SourceEvent::Pull;
            }
            SourceAction::YieldOpenError => {
                out.push(Err("open".to_string()));
                event = SourceEvent::Pull;
            }
            SourceAction::YieldReadError => {
                out.push(Err("read".to_string()));
                event = SourceEvent::Pull;
            }
            SourceAction::Done => return out,
        }
    }
}

#[test]
fn file_chain_starts_with_last_path() {
    let (source, first) = RecordSource::file_chain(vec!["a.jsonl", "b.jsonl"]).unwrap();
    assert_eq!(first, "b.jsonl");
    assert!(!source.is_interactive());
    assert!(RecordSource::<&str>::file_chain(vec![]).is_none());
}

#[test]
fn later_file_is_exhausted_before_earlier_one() {
    let files = vec![vec!["{\"f\":\"a1\"}\n", "{\"f\":\"a2\"}\n"], vec!["{\"f\":\"b1\"}\n", "{\"f\":\"b2\"}\n"]];
    let (mut source, first) = RecordSource::file_chain(vec![0usize, 1]).unwrap();
    assert_eq!(first, 1);
    let out = drain(&mut source, first, &files, &[]);
    let lines: Vec<String> = out.into_iter().map(|r| r.unwrap()).collect();
    assert_eq!(lines, vec!["{\"f\":\"b1\"}", "{\"f\":\"b2\"}", "{\"f\":\"a1\"}", "{\"f\":\"a2\"}"]);
}

#[test]
fn one_record_per_line_over_three_files() {
    let files = vec![vec!["1\n", "2\n", "\n"], vec![], vec!["3\n", "4"]];
    let (mut source, first) = RecordSource::file_chain(vec![0usize, 1, 2]).unwrap();
    let out = drain(&mut source, first, &files, &[]);
    assert_eq!(out.len(), 5);
    let lines: Vec<String> = out.into_iter().map(|r| r.unwrap()).collect();
    assert_eq!(lines, vec!["3", "4", "1", "2", ""]);
}

#[test]
fn failed_open_is_one_error_then_the_chain_goes_on() {
    let files = vec![vec!["1\n"], vec!["2\n"], vec!["3\n"]];
    let (mut source, first) = RecordSource::file_chain(vec![0usize, 1, 2]).unwrap();
    let out = drain(&mut source, first, &files, &[1]);
    assert_eq!(out, vec![Ok("3".to_string()), Err("open".to_string()), Ok("1".to_string())]);
}

#[test]
fn interactive_source_reads_until_end() {
    let mut source = RecordSource::<String>::interactive();
    assert!(source.is_interactive());
    assert!(matches!(source.step(SourceEvent::Pull), SourceAction::ReadLine));
    match source.step(SourceEvent::Line("{\"a\":1}".to_string())) {
        SourceAction::Yield(l) => assert_eq!(l, "{\"a\":1}"),
        _ => panic!("expected a record"),
    }
    assert!(matches!(source.step(SourceEvent::ReadFailed), SourceAction::YieldReadError));
    assert!(matches!(source.step(SourceEvent::Pull), SourceAction::ReadLine));
    assert!(matches!(source.step(SourceEvent::End), SourceAction::Done));
}

#[test]
fn read_failure_in_a_file_moves_to_the_next() {
    let (mut source, _) = RecordSource::file_chain(vec![7usize, 8]).unwrap();
    assert!(matches!(source.step(SourceEvent::ReadFailed), SourceAction::Open(7)));
    assert!(matches!(source.step(SourceEvent::Opened), SourceAction::ReadLine));
    assert!(matches!(source.step(SourceEvent::End), SourceAction::Done));
}

#[test]
fn trims_line_terminators() {
    assert_eq!(trim_line("abc\n"), "abc");
    assert_eq!(trim_line("abc\r\n"), "abc");
    assert_eq!(trim_line("abc"), "abc");
    assert_eq!(trim_line("\n"), "");
    assert_eq!(trim_line("a\n\n"), "a\n");
}

#[test]
fn blank_lines_do_not_decode() {
    assert!(decode_line("").is_err());
    assert!(decode_line("  \t ").is_err());
    assert!(decode_line("{\"a\":").is_err());
    assert_eq!(decode_line("{\"a\":1}").unwrap(), record("{\"a\":1}"));
}

#[test]
fn record_line_is_compact_json_and_a_break() {
    assert_eq!(record_line(&record("{ \"a\" : 1 }")), "{\"a\":1}\n");
    assert_eq!(record_line(&record("{\"s\":\"x\\ny\"}")), "{\"s\":\"x\\ny\"}\n");
}

#[test]
fn rules_load_and_validate() {
    assert!(load_entry("r1.yml".to_string(), Some(MATCHES_A1)).rule.is_some());
    assert!(load_entry("r2.yml".to_string(), Some(BROKEN)).rule.is_none());
    assert!(load_entry("r3.yml".to_string(), Some(FAILS_OWN_CHECK)).rule.is_none());
    assert_eq!(load_entry("r3.yml".to_string(), Some(FAILS_OWN_CHECK)).name, "r3.yml");
}

#[test]
fn judge_keeps_only_rules_that_validated() {
    let rule = tau_engine::Rule::from_str(MATCHES_A1).unwrap();
    assert!(judge(rule.clone(), Ok(true)).is_some());
    assert!(judge(rule, Ok(false)).is_none());
}

#[test]
fn report_has_a_row_per_rule_path() {
    let entries = validate_rules(sources(&[("r1.yml", MATCHES_A1), ("r2.yml", BROKEN), ("r3.yml", FAILS_OWN_CHECK)]));
    let rows = validation_report(&entries);
    assert_eq!(
        rows,
        vec![("r1.yml".to_string(), true), ("r2.yml".to_string(), false), ("r3.yml".to_string(), false)]
    );
}

#[test]
fn report_twice_is_the_same() {
    let srcs = sources(&[("r1.yml", MATCHES_A1), ("r2.yml", BROKEN)]);
    let first = validation_report(&validate_rules(srcs.clone()));
    let second = validation_report(&validate_rules(srcs));
    assert_eq!(first, second);
}

#[test]
fn validate_only_reports_even_without_valid_rules() {
    let entries = validate_rules(sources(&[("r2.yml", BROKEN)]));
    match plan_start(true, &entries) {
        StartPlan::Report(rows) => assert_eq!(rows, vec![("r2.yml".to_string(), false)]),
        _ => panic!("expected a report"),
    }
}

#[test]
fn no_valid_rule_fails_startup() {
    let entries = validate_rules(sources(&[("r2.yml", BROKEN), ("r3.yml", FAILS_OWN_CHECK)]));
    assert!(!any_valid(&entries));
    assert!(matches!(plan_start(false, &entries), StartPlan::NoValidRule));
    assert!(matches!(plan_start(false, &Vec::new()), StartPlan::NoValidRule));
}

#[test]
fn a_valid_rule_starts_processing() {
    let entries = validate_rules(sources(&[("r2.yml", BROKEN), ("r1.yml", MATCHES_A1)]));
    assert!(any_valid(&entries));
    assert!(matches!(plan_start(false, &entries), StartPlan::Process));
}

#[test]
fn valid_rule_matches_into_its_own_directory_file() {
    let entries = validate_rules(sources(&[("r1.yml", MATCHES_A1), ("r2.yml", BROKEN)]));
    let sink = MatchSink::for_target(OutputTarget::Directory, &entries);
    assert_eq!(sink.file_names(), vec!["r1.yml".to_string()]);
    let rec = decode_line(&trim_line("{\"a\":1}\n")).unwrap();
    let matched = matching_rules(&entries, &rec);
    assert_eq!(matched, vec![0]);
    let routes = deliveries(&sink, &entries, &matched);
    assert_eq!(routes.len(), 1);
    match &routes[0] {
        Route::Files(v) => assert_eq!(v, &vec![0]),
        Route::Stdout => panic!("expected a file"),
    }
    assert_eq!(record_line(&rec), "{\"a\":1}\n");
}

#[test]
fn directory_mode_routes_by_rule_name() {
    let entries = validate_rules(sources(&[("r1.yml", MATCHES_A1), ("r2.yml", BROKEN), ("r4.yml", MATCHES_B)]));
    assert_eq!(validated_names(&entries), vec!["r1.yml".to_string(), "r4.yml".to_string()]);
    let sink = MatchSink::for_target(OutputTarget::Directory, &entries);
    assert!(matches!(sink.output_match(&"r4.yml".to_string()), Route::Files(v) if v == vec![1]));
    assert!(matches!(sink.output_match(&"r1.yml".to_string()), Route::Files(v) if v == vec![0]));
    assert!(matches!(sink.output_match(&"r2.yml".to_string()), Route::Files(v) if v.is_empty()));
    let rec = record("{\"a\":1,\"b\":\"xy\"}");
    assert_eq!(matching_rules(&entries, &rec), vec![0, 2]);
    assert_eq!(matching_rules(&entries, &record("{\"a\":3}")), Vec::<usize>::new());
}

#[test]
fn single_file_takes_every_match() {
    let entries = validate_rules(sources(&[("r1.yml", MATCHES_A1), ("r4.yml", MATCHES_B)]));
    let sink = MatchSink::for_target(OutputTarget::File, &entries);
    assert_eq!(sink.file_names(), vec![String::new()]);
    assert!(matches!(sink.output_match(&"r1.yml".to_string()), Route::Files(v) if v == vec![0]));
    assert!(matches!(sink.output_match(&"r4.yml".to_string()), Route::Files(v) if v == vec![0]));
    assert!(matches!(sink.output_match(&"other".to_string()), Route::Files(v) if v == vec![0]));
}

#[test]
fn interactive_sink_takes_every_match() {
    let entries = validate_rules(sources(&[("r1.yml", MATCHES_A1), ("r4.yml", MATCHES_B)]));
    let sink = MatchSink::for_target(OutputTarget::Interactive, &entries);
    assert!(sink.file_names().is_empty());
    assert!(matches!(sink.output_match(&"r1.yml".to_string()), Route::Stdout));
    let routes = deliveries(&sink, &entries, &vec![0, 1]);
    assert!(routes.iter().all(|r| matches!(r, Route::Stdout)));
}

#[test]
fn overwrite_switches_create_new_to_truncate() {
    let p = open_policy(false);
    assert!(p.create_new && !p.create && !p.truncate);
    let p = open_policy(true);
    assert!(!p.create_new && p.create && p.truncate);
}

#[test]
fn rule_with_a_scalar_example_is_invalid_without_validation() {
    let rule = tau_engine::Rule::from_str(SCALAR_EXAMPLE).unwrap();
    assert!(!examples_are_checkable(&rule));
    assert!(accept_loaded(Ok(rule)).is_none());
    assert!(load_entry("r5.yml".to_string(), Some(SCALAR_EXAMPLE)).rule.is_none());
    let good = tau_engine::Rule::from_str(MATCHES_A1).unwrap();
    assert!(examples_are_checkable(&good));
    assert!(accept_loaded(Ok(good)).is_some());
}

#[test]
fn unreadable_rule_text_is_an_invalid_rule() {
    let e = load_entry("gone.yml".to_string(), None);
    assert_eq!(e.name, "gone.yml");
    assert!(e.rule.is_none());
    let entries = validate_rules(vec![("gone.yml".to_string(), None), ("r1.yml".to_string(), Some(MATCHES_A1.to_string()))]);
    assert_eq!(validation_report(&entries), vec![("gone.yml".to_string(), false), ("r1.yml".to_string(), true)]);
}

#[test]
fn blank_line_fails_and_the_next_decodes() {
    let files = vec![vec!["\n", "{\"b\":2}\n"]];
    let (mut source, first) = RecordSource::file_chain(vec![0usize]).unwrap();
    let out: Vec<String> = drain(&mut source, first, &files, &[]).into_iter().map(|r| r.unwrap()).collect();
    assert_eq!(out.len(), 2);
    assert!(decode_line(&out[0]).is_err());
    assert_eq!(decode_line(&out[1]).unwrap(), record("{\"b\":2}"));
}

#[test]
fn written_record_reads_back_as_the_same_value() {
    let rec = record("{\"a\":[1,2,{\"c\":\"d e\"}],\"n\":null}");
    let line = record_line(&rec);
    assert_eq!(decode_line(&trim_line(&line)).unwrap(), rec);
}

#[test]
fn failed_write_ends_the_run_and_bad_records_are_skipped() {
    assert!(matches!(after_record(RecordOutcome::Unreadable), LoopStep::ReportAndContinue));
    assert!(matches!(after_record(RecordOutcome::Delivered), LoopStep::Continue));
    assert!(matches!(after_record(RecordOutcome::WriteFailed), LoopStep::Abort));
}

#[test]
fn carriage_return_in_a_record_survives_read_back() {
    let rec = record("{\"s\":\"a\\r\"}");
    let line = record_line(&rec);
    assert_eq!(line, "{\"s\":\"a\\r\"}\n");
    assert!(!line.contains('\r'));
    assert_eq!(decode_line(&trim_line(&line)).unwrap(), rec);
}
