//! The record source: hands out the lines of standard input, or of a chain of
//! files taken last-supplied first, one record at a time.
//!
//! The source itself performs no I/O. Its caller reports what happened
//! (a line was read, a file opened, ...) and the source answers with what to
//! do next, until it yields a line to decode or says that it is done.
use vstd::prelude::*;

use crate::engine::{decoded_json, is_blank, parse_json};

verus! {

/// What the caller observed since the source's last answer.
pub enum SourceEvent {
    /// The next record is wanted.
    Pull,
    /// The current input gave this line, terminator included.
    Line(String),
    /// The current input is at its end.
    End,
    /// Reading from the current input failed.
    ReadFailed,
    /// The file named by the last `SourceAction::Open` is now the current input.
    Opened,
    /// The file named by the last `SourceAction::Open` could not be opened.
    OpenFailed,
}

/// What the source asks its caller to do next.
pub enum SourceAction<P> {
    /// Read one line from the current input.
    ReadLine,
    /// Open this file; it replaces the current input.
    Open(P),
    /// A record: this line, without its terminator, is to be decoded.
    Yield(String),
    /// A record that failed: reading standard input failed.
    YieldReadError,
    /// A record that failed: the last file could not be opened.
    YieldOpenError,
    /// No records remain.
    Done,
}

/// The abstract state of a record source.
pub struct SourceModel<P> {
    pub interactive: bool,
    /// Files still to be read; the last one is opened next.
    pub pending: Seq<P>,
    /// Whether a file is open and may hold more lines.
    pub current_open: bool,
}

pub enum EventModel {
    Pull,
    Line(Seq<char>),
    End,
    ReadFailed,
    Opened,
    OpenFailed,
}

pub enum ActionModel<P> {
    ReadLine,
    Open(P),
    Yield(Seq<char>),
    YieldReadError,
    YieldOpenError,
    Done,
}

impl View for SourceEvent {
    type V = EventModel;

    open spec fn view(&self) -> EventModel {
        match self {
            SourceEvent::Pull => EventModel::Pull,
            SourceEvent::Line(l) => EventModel::Line(l@),
            SourceEvent::End => EventModel::End,
            SourceEvent::ReadFailed => EventModel::ReadFailed,
            SourceEvent::Opened => EventModel::Opened,
            SourceEvent::OpenFailed => EventModel::OpenFailed,
        }
    }
}

impl<P> View for SourceAction<P> {
    type V = ActionModel<P>;

    open spec fn view(&self) -> ActionModel<P> {
        match self {
            SourceAction::ReadLine => ActionModel::ReadLine,
            SourceAction::Open(p) => ActionModel::Open(*p),
            SourceAction::Yield(l) => ActionModel::Yield(l@),
            SourceAction::YieldReadError => ActionModel::YieldReadError,
            SourceAction::YieldOpenError => ActionModel::YieldOpenError,
            SourceAction::Done => ActionModel::Done,
        }
    }
}

/// The line without its terminator: a final "\n", or "\r\n".
pub open spec fn strip_terminator(l: Seq<char>) -> Seq<char> {
    if l.len() > 0 && l.last() == '\n' {
        let t = l.drop_last();
        if t.len() > 0 && t.last() == '\r' {
            t.drop_last()
        } else {
            t
        }
    } else {
        l
    }
}

/// Leaves the current file behind and moves to the most recently supplied
/// pending one, if any remains.
pub open spec fn next_file<P>(s: SourceModel<P>) -> (SourceModel<P>, ActionModel<P>) {
    if s.pending.len() > 0 {
        (
            SourceModel { pending: s.pending.drop_last(), current_open: false, ..s },
            ActionModel::Open(s.pending.last()),
        )
    } else {
        (SourceModel { current_open: false, ..s }, ActionModel::Done)
    }
}

/// One transition of the source.
pub open spec fn step_model<P>(s: SourceModel<P>, e: EventModel) -> (SourceModel<P>, ActionModel<P>) {
    if s.interactive {
        match e {
            EventModel::Line(l) => (s, ActionModel::Yield(strip_terminator(l))),
            EventModel::End => (s, ActionModel::Done),
            EventModel::ReadFailed => (s, ActionModel::YieldReadError),
            _ => (s, ActionModel::ReadLine),
        }
    } else {
        match e {
            EventModel::Line(l) => (s, ActionModel::Yield(strip_terminator(l))),
            EventModel::Opened => (SourceModel { current_open: true, ..s }, ActionModel::ReadLine),
            EventModel::OpenFailed => (
                SourceModel { current_open: false, ..s },
                ActionModel::YieldOpenError,
            ),
            EventModel::Pull => if s.current_open {
                (s, ActionModel::ReadLine)
            } else {
                next_file(s)
            },
            EventModel::End | EventModel::ReadFailed => next_file(s),
        }
    }
}

/// A source of records: standard input, or a chain of files.
pub struct RecordSource<P> {
    interactive: bool,
    pending: Vec<P>,
    current_open: bool,
}

impl<P> View for RecordSource<P> {
    type V = SourceModel<P>;

    closed spec fn view(&self) -> SourceModel<P> {
        SourceModel {
            interactive: self.interactive,
            pending: self.pending@,
            current_open: self.current_open,
        }
    }
}

/// Removes a final "\n" or "\r\n" from the line.
pub fn trim_line(line: &str) -> (r: String)
    ensures
        r@ == strip_terminator(line@),
{
    let n = line.unicode_len();
    let mut end = n;
    if end > 0 && line.get_char(end - 1) == '\n' {
        end = end - 1;
        if end > 0 && line.get_char(end - 1) == '\r' {
            end = end - 1;
        }
    }
    let r = line.substring_char(0, end).to_owned();
    assert(r@ =~= strip_terminator(line@));
    r
}

/// Decodes one line, already without its terminator, as a JSON record.
/// A line that holds only whitespace, the empty line among them, is no record.
pub fn decode_line(line: &str) -> (r: Result<serde_json::Value, serde_json::Error>)
    ensures
        (r is Ok) == (decoded_json(line@) is Some),
        r is Ok ==> r->Ok_0 == decoded_json(line@)->Some_0,
        is_blank(line@) ==> r is Err,
{
    parse_json(line)
}

impl<P> RecordSource<P> {
    /// A source that reads standard input.
    pub fn interactive() -> (s: Self)
        ensures
            s@ == (SourceModel::<P> { interactive: true, pending: Seq::empty(), current_open: true }),
    {
        RecordSource { interactive: true, pending: Vec::new(), current_open: true }
    }

    /// A source over files: the last path is the one to open first, the rest
    /// stay pending. `None` when no path is given.
    pub fn file_chain(paths: Vec<P>) -> (r: Option<(Self, P)>)
        ensures
            r is None <==> paths@.len() == 0,
            r is Some ==> r->Some_0.1 == paths@.last() && r->Some_0.0@ == (SourceModel {
                interactive: false,
                pending: paths@.drop_last(),
                current_open: true,
            }),
    {
        let mut pending = paths;
        match pending.pop() {
            Some(first) => Some((RecordSource { interactive: false, pending, current_open: true }, first)),
            None => None,
        }
    }

    /// Whether the source reads standard input.
    pub fn is_interactive(&self) -> (r: bool)
        ensures
            r == self@.interactive,
    {
        self.interactive
    }

    fn advance(&mut self) -> (action: SourceAction<P>)
        ensures
            (final(self)@, action@) == next_file(old(self)@),
    {
        self.current_open = false;
        match self.pending.pop() {
            Some(p) => SourceAction::Open(p),
            None => SourceAction::Done,
        }
    }

    /// Takes what the caller observed and says what it is to do next.
    pub fn step(&mut self, event: SourceEvent) -> (action: SourceAction<P>)
        ensures
            (final(self)@, action@) == step_model(old(self)@, event@),
    {
        if self.interactive {
            match event {
                SourceEvent::Line(l) => SourceAction::Yield(trim_line(l.as_str())),
                SourceEvent::End => SourceAction::Done,
                SourceEvent::ReadFailed => SourceAction::YieldReadError,
                _ => SourceAction::ReadLine,
            }
        } else {
            match event {
                SourceEvent::Line(l) => SourceAction::Yield(trim_line(l.as_str())),
                SourceEvent::Opened => {
                    self.current_open = true;
                    SourceAction::ReadLine
                },
                SourceEvent::OpenFailed => {
                    self.current_open = false;
                    SourceAction::YieldOpenError
                },
                SourceEvent::Pull => {
                    if self.current_open {
                        SourceAction::ReadLine
                    } else {
                        self.advance()
                    }
                },
                SourceEvent::End | SourceEvent::ReadFailed => self.advance(),
            }
        }
    }
}

/// The paths `0, 1, ..., k - 1`, standing for the first `k` supplied files.
pub open spec fn file_indices(k: nat) -> Seq<nat> {
    Seq::new(k, |i: int| i as nat)
}

/// The lines of the given files as records, the last file first and each
/// file's lines in order.
pub open spec fn stacked_lines(files: Seq<Seq<Seq<char>>>) -> Seq<Seq<char>>
    decreases files.len(),
{
    if files.len() == 0 {
        Seq::empty()
    } else {
        files.last().map_values(|l: Seq<char>| strip_terminator(l)) + stacked_lines(files.drop_last())
    }
}

/// The number of lines over all the files.
pub open spec fn total_lines(files: Seq<Seq<Seq<char>>>) -> nat
    decreases files.len(),
{
    if files.len() == 0 {
        0
    } else {
        files.last().len() + total_lines(files.drop_last())
    }
}

/// The steps a reader takes to go through the first `k` files.
pub open spec fn chain_cost(files: Seq<Seq<Seq<char>>>, k: nat) -> nat
    decreases k,
{
    if k == 0 {
        0
    } else {
        2 * files[k - 1].len() + 2 + chain_cost(files, (k - 1) as nat)
    }
}

/// The records yielded when a reader serves the source faithfully: path `i`
/// opens onto the lines `files[i]`, and `cur` are the lines left in the
/// current input. At most `fuel` events are handed in.
pub open spec fn drive(
    s: SourceModel<nat>,
    a: ActionModel<nat>,
    files: Seq<Seq<Seq<char>>>,
    cur: Seq<Seq<char>>,
    fuel: nat,
) -> Seq<Seq<char>>
    decreases fuel,
{
    if fuel == 0 {
        Seq::empty()
    } else {
        match a {
            ActionModel::ReadLine => if cur.len() > 0 {
                let n = step_model(s, EventModel::Line(cur[0]));
                drive(n.0, n.1, files, cur.drop_first(), (fuel - 1) as nat)
            } else {
                let n = step_model(s, EventModel::End);
                drive(n.0, n.1, files, cur, (fuel - 1) as nat)
            },
            ActionModel::Open(i) => {
                let n = step_model(s, EventModel::Opened);
                let lines = if i < files.len() { files[i as int] } else { Seq::empty() };
                drive(n.0, n.1, files, lines, (fuel - 1) as nat)
            },
            ActionModel::Yield(l) => {
                let n = step_model(s, EventModel::Pull);
                seq![l] + drive(n.0, n.1, files, cur, (fuel - 1) as nat)
            },
            ActionModel::YieldReadError | ActionModel::YieldOpenError => Seq::empty(),
            ActionModel::Done => Seq::empty(),
        }
    }
}

proof fn lemma_drive_chain(files: Seq<Seq<Seq<char>>>, k: nat, cur: Seq<Seq<char>>, fuel: nat)
    requires
        k <= files.len(),
        fuel >= 2 * cur.len() + chain_cost(files, k) + 1,
    ensures
        drive(
            SourceModel { interactive: false, pending: file_indices(k), current_open: true },
            ActionModel::ReadLine,
            files,
            cur,
            fuel,
        ) == cur.map_values(|l: Seq<char>| strip_terminator(l)) + stacked_lines(files.take(k as int)),
    decreases k, cur.len(),
{
    let s = SourceModel { interactive: false, pending: file_indices(k), current_open: true };
    if cur.len() > 0 {
        lemma_drive_chain(files, k, cur.drop_first(), (fuel - 2) as nat);
        assert(cur.map_values(|l: Seq<char>| strip_terminator(l)) =~= seq![strip_terminator(cur[0])]
            + cur.drop_first().map_values(|l: Seq<char>| strip_terminator(l)));
        assert(drive(s, ActionModel::ReadLine, files, cur, fuel) == drive(
            s,
            ActionModel::Yield(strip_terminator(cur[0])),
            files,
            cur.drop_first(),
            (fuel - 1) as nat,
        ));
        assert(drive(s, ActionModel::Yield(strip_terminator(cur[0])), files, cur.drop_first(), (fuel - 1) as nat)
            == seq![strip_terminator(cur[0])] + drive(s, ActionModel::ReadLine, files, cur.drop_first(), (fuel - 2) as nat));
    } else if k > 0 {
        let s2 = SourceModel { interactive: false, pending: file_indices((k - 1) as nat), current_open: false };
        assert(file_indices(k).drop_last() =~= file_indices((k - 1) as nat));
        assert(file_indices(k).last() == (k - 1) as nat);
        lemma_drive_chain(files, (k - 1) as nat, files[k - 1], (fuel - 2) as nat);
        assert(drive(s, ActionModel::ReadLine, files, cur, fuel) == drive(
            s2,
            ActionModel::Open((k - 1) as nat),
            files,
            cur,
            (fuel - 1) as nat,
        ));
        let s3 = SourceModel { interactive: false, pending: file_indices((k - 1) as nat), current_open: true };
        assert(drive(s2, ActionModel::Open((k - 1) as nat), files, cur, (fuel - 1) as nat)
            == drive(s3, ActionModel::ReadLine, files, files[k - 1], (fuel - 2) as nat));
        let t = files.take(k as int);
        assert(t.last() == files[k - 1]);
        assert(t.drop_last() =~= files.take(k - 1));
        assert(cur.map_values(|l: Seq<char>| strip_terminator(l)) =~= Seq::<Seq<char>>::empty());
        assert(stacked_lines(t) == t.last().map_values(|l: Seq<char>| strip_terminator(l))
            + stacked_lines(t.drop_last()));
    } else {
        assert(file_indices(0).len() == 0);
        assert(drive(s, ActionModel::ReadLine, files, cur, fuel) == drive(
            SourceModel { current_open: false, ..s },
            ActionModel::Done,
            files,
            cur,
            (fuel - 1) as nat,
        ));
        assert(cur.map_values(|l: Seq<char>| strip_terminator(l)) =~= Seq::<Seq<char>>::empty());
        assert(files.take(0) =~= Seq::<Seq<Seq<char>>>::empty());
        assert(stacked_lines(files.take(0)) =~= Seq::<Seq<char>>::empty());
    }
}

proof fn lemma_stacked_len(files: Seq<Seq<Seq<char>>>)
    ensures
        stacked_lines(files).len() == total_lines(files),
    decreases files.len(),
{
    if files.len() > 0 {
        lemma_stacked_len(files.drop_last());
    }
}

/// Over a chain of files whose every open succeeds, the source yields one
/// record for each line of each file, nothing more: all lines of the last
/// supplied file first, then those of the one before, and so on.
/// The chain starts as `RecordSource::file_chain` leaves it, with the last
/// path already opened onto its lines. Any fuel beyond what the chain needs
/// yields nothing more: the source is then done.
pub proof fn lemma_chain_yields_every_line(files: Seq<Seq<Seq<char>>>, fuel: nat)
    requires
        files.len() > 0,
        fuel >= chain_cost(files, files.len()) + 1,
    ensures
        ({
            let n = files.len();
            let start = SourceModel {
                interactive: false,
                pending: file_indices(n).drop_last(),
                current_open: true,
            };
            let out = drive(start, ActionModel::ReadLine, files, files[n - 1], fuel);
            &&& out == stacked_lines(files)
            &&& out.len() == total_lines(files)
        }),
{
    let n = files.len();
    assert(file_indices(n).drop_last() =~= file_indices((n - 1) as nat));
    assert(chain_cost(files, n) == 2 * files[n - 1].len() + 2 + chain_cost(files, (n - 1) as nat));
    lemma_drive_chain(files, (n - 1) as nat, files[n - 1], fuel);
    let t = files.take(n - 1);
    assert(files.drop_last() =~= t);
    lemma_stacked_len(files);
}

} // verus!
