//! The match sink: where each matched record goes, and how its output files
//! are to be opened. The sink names its destinations; the handles belong to
//! the caller, one for each name, in the same order.
use vstd::prelude::*;

use crate::engine::{json_text, json_text_of};
use crate::record_source::strip_terminator;
use crate::rules::{RuleEntry, valid_names, validated_names};

verus! {

/// Where the caller asked matches to be written.
#[derive(Clone, Copy, PartialEq, Eq, Structural)]
pub enum OutputTarget {
    /// Standard output.
    Interactive,
    /// One file, shared by all rules.
    File,
    /// An existing directory, holding one file per valid rule.
    Directory,
}

/// The destinations of matched records.
pub enum MatchSink {
    /// Standard output.
    Interactive,
    /// Output files, by name: one with the empty name that takes every
    /// match, or one for each valid rule, named after it.
    FileSet(Vec<String>),
}

/// Where one matched record is to be written.
pub enum Route {
    Stdout,
    /// The positions of the files, in the sink's order.
    Files(Vec<usize>),
}

/// How an output file is opened.
#[derive(Clone, Copy, PartialEq, Eq, Structural)]
pub struct OpenPolicy {
    /// Fail when the file exists.
    pub create_new: bool,
    /// Create the file when it is missing.
    pub create: bool,
    /// Empty the file when it exists.
    pub truncate: bool,
}

/// Why an output file could not be opened.
#[derive(Clone, Copy, PartialEq, Eq, Structural)]
pub enum OpenFailure {
    /// The file exists and overwriting was not asked for.
    AlreadyExists,
    /// A directory on the way to the file does not exist.
    ParentMissing,
    /// Any other failure of the system.
    Other,
}

/// The positions `< k` whose name is `rule`, ascending.
pub open spec fn positions_named(names: Seq<Seq<char>>, rule: Seq<char>, k: int) -> Seq<usize>
    decreases k,
{
    if k <= 0 {
        Seq::empty()
    } else {
        let rest = positions_named(names, rule, k - 1);
        if names[k - 1] == rule {
            rest.push((k - 1) as usize)
        } else {
            rest
        }
    }
}

/// The files that take a record matched by `rule`: the only file when
/// there is one, else those named `rule`.
pub open spec fn routes(names: Seq<Seq<char>>, rule: Seq<char>) -> Seq<usize> {
    if names.len() == 1 {
        seq![0usize]
    } else {
        positions_named(names, rule, names.len() as int)
    }
}

/// The names of a file set's destinations.
pub open spec fn name_views(names: Seq<String>) -> Seq<Seq<char>> {
    names.map_values(|s: String| s@)
}

/// The names of the output files for a target: none for standard output, the
/// shared empty name for one file, or the valid rules' names for a directory.
pub open spec fn sink_names(target: OutputTarget, entries: Seq<RuleEntry>) -> Seq<Seq<char>> {
    match target {
        OutputTarget::Interactive => Seq::empty(),
        OutputTarget::File => seq![Seq::empty()],
        OutputTarget::Directory => valid_names(entries),
    }
}

/// How output files are opened: create/truncate when overwriting, else
/// create only a file that does not exist yet.
pub fn open_policy(overwrite: bool) -> (p: OpenPolicy)
    ensures
        p.create_new == !overwrite,
        p.create == overwrite,
        p.truncate == overwrite,
{
    OpenPolicy { create_new: !overwrite, create: overwrite, truncate: overwrite }
}

/// One output line for a record: its compact JSON text and a line break.
pub fn record_line(record: &serde_json::Value) -> (r: String)
    ensures
        r@ == json_text_of(*record).push('\n'),
        forall|i: int| 0 <= i < r@.len() - 1 ==> #[trigger] r@[i] != '\n',
        strip_terminator(r@) == json_text_of(*record),
{
    let mut r = json_text(record);
    r.append("\n");
    proof {
        reveal_strlit("\n");
    }
    assert(r@ =~= json_text_of(*record).push('\n'));
    assert(r@.drop_last() =~= json_text_of(*record));
    r
}

impl MatchSink {
    /// The sink for a target; for a directory one file per valid rule.
    pub fn for_target(target: OutputTarget, entries: &Vec<RuleEntry>) -> (s: MatchSink)
        ensures
            target == OutputTarget::Interactive <==> s is Interactive,
            s matches MatchSink::FileSet(names) ==> name_views(names@) == sink_names(target, entries@),
    {
        match target {
            OutputTarget::Interactive => MatchSink::Interactive,
            OutputTarget::File => {
                let mut names: Vec<String> = Vec::new();
                names.push(String::new());
                assert(name_views(names@) =~= sink_names(target, entries@));
                MatchSink::FileSet(names)
            },
            OutputTarget::Directory => MatchSink::FileSet(validated_names(entries)),
        }
    }

    /// The names of the output files, in order; none for standard output.
    pub fn file_names(&self) -> (r: Vec<String>)
        ensures
            self is Interactive ==> r@.len() == 0,
            self matches MatchSink::FileSet(names) ==> name_views(r@) == name_views(names@),
    {
        match self {
            MatchSink::Interactive => Vec::new(),
            MatchSink::FileSet(names) => {
                let mut r: Vec<String> = Vec::new();
                let mut i: usize = 0;
                while i < names.len()
                    invariant
                        i <= names@.len(),
                        r@.len() == i,
                        forall|k: int| 0 <= k < i ==> (#[trigger] r@[k])@ == names@[k]@,
                    decreases names.len() - i,
                {
                    r.push(names[i].clone());
                    i = i + 1;
                }
                assert(name_views(r@) =~= name_views(names@));
                r
            },
        }
    }

    /// Where a record matched by the rule named `rule` is written.
    pub fn output_match(&self, rule: &String) -> (r: Route)
        ensures
            self is Interactive ==> r is Stdout,
            self matches MatchSink::FileSet(names) ==> r matches Route::Files(v) && v@ == routes(
                name_views(names@),
                rule@,
            ),
    {
        match self {
            MatchSink::Interactive => Route::Stdout,
            MatchSink::FileSet(names) => {
                let mut v: Vec<usize> = Vec::new();
                if names.len() == 1 {
                    v.push(0);
                    assert(v@ =~= routes(name_views(names@), rule@));
                    return Route::Files(v);
                }
                let mut i: usize = 0;
                while i < names.len()
                    invariant
                        i <= names@.len(),
                        v@ == positions_named(name_views(names@), rule@, i as int),
                    decreases names.len() - i,
                {
                    if names[i] == *rule {
                        v.push(i);
                    }
                    i = i + 1;
                }
                Route::Files(v)
            },
        }
    }
}

proof fn lemma_positions_named(names: Seq<Seq<char>>, rule: Seq<char>, k: int)
    requires
        0 <= k <= names.len() <= usize::MAX,
    ensures
        forall|m: int|
            0 <= m < positions_named(names, rule, k).len() ==> (#[trigger] positions_named(names, rule, k)[m]) < k
                && names[positions_named(names, rule, k)[m] as int] == rule,
        (exists|j: int| 0 <= j < k && names[j] == rule) ==> positions_named(names, rule, k).len() > 0,
    decreases k,
{
    if k > 0 {
        lemma_positions_named(names, rule, k - 1);
        let rest = positions_named(names, rule, k - 1);
        let cur = positions_named(names, rule, k);
        assert forall|m: int| 0 <= m < cur.len() implies (#[trigger] cur[m]) < k && names[cur[m] as int] == rule by {
            if m < rest.len() {
                assert(cur[m] == rest[m]);
            } else {
                assert(cur[m] == (k - 1) as usize);
            }
        }
        if names[k - 1] != rule {
            if exists|j: int| 0 <= j < k && names[j] == rule {
                let j = choose|j: int| 0 <= j < k && names[j] == rule;
                assert(j < k - 1);
            }
        }
    }
}

proof fn lemma_valid_names_len(entries: Seq<RuleEntry>)
    ensures
        valid_names(entries).len() <= entries.len(),
    decreases entries.len(),
{
    if entries.len() > 0 {
        lemma_valid_names_len(entries.drop_last());
    }
}

proof fn lemma_valid_name_listed(entries: Seq<RuleEntry>, j: int)
    requires
        0 <= j < entries.len(),
        entries[j].rule is Some,
    ensures
        valid_names(entries).contains(entries[j].name@),
        valid_names(entries).len() <= entries.len(),
    decreases entries.len(),
{
    let rest = valid_names(entries.drop_last());
    lemma_valid_names_len(entries.drop_last());
    if j == entries.len() - 1 {
        assert(valid_names(entries).last() == entries[j].name@);
    } else {
        lemma_valid_name_listed(entries.drop_last(), j);
        let m = choose|m: int| 0 <= m < rest.len() && rest[m] == entries[j].name@;
        assert(valid_names(entries)[m] == rest[m]);
    }
}

/// In directory mode a record matched by a valid rule is written to at least
/// one file, and only to files named after that rule.
pub proof fn lemma_directory_routes_to_own_file(entries: Seq<RuleEntry>, j: int)
    requires
        0 <= j < entries.len() <= usize::MAX,
        entries[j].rule is Some,
    ensures
        ({
            let names = sink_names(OutputTarget::Directory, entries);
            let r = routes(names, entries[j].name@);
            &&& r.len() > 0
            &&& forall|k: int| 0 <= k < r.len() ==> (#[trigger] r[k]) < names.len() && names[r[k] as int] == entries[j].name@
        }),
{
    let names = valid_names(entries);
    let rule = entries[j].name@;
    lemma_valid_name_listed(entries, j);
    let m = choose|m: int| 0 <= m < names.len() && names[m] == rule;
    if names.len() == 1 {
        assert(names[0] == rule);
    } else {
        lemma_positions_named(names, rule, names.len() as int);
    }
}

/// With one output file, or standard output, every match goes to that one
/// destination, whichever rule it matched.
pub proof fn lemma_single_destination_takes_every_match(entries: Seq<RuleEntry>, rule: Seq<char>)
    ensures
        routes(sink_names(OutputTarget::File, entries), rule) == seq![0usize],
        sink_names(OutputTarget::Interactive, entries).len() == 0,
{
}

} // verus!
