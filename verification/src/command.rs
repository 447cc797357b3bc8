//! The commands of the tracker: what each does to the ledger, what it has to
//! say, and whether the ledger's file is to be written anew.

use crate::calendar::iso_week_of;
use crate::error::Error;
use crate::ledger::{Ledger, LedgerView};
use crate::report::{
    day_report, log_lines, status_text, stopped_line, stopped_text, string_views, week_report,
};
use crate::summary::{day_summary, day_summary_of, week_summary, week_summary_of};
use crate::time::{day_of, Date, IsoWeek, Timestamp, MAX_SECS, MIN_SECS};
use vstd::prelude::*;

verus! {

/// What the user asks for.
#[derive(Debug, Clone, Copy, PartialEq, Eq)]
pub enum Command {
    /// Start a session.
    Start,
    /// End the running session.
    Stop,
    /// Tell whether a session is running.
    Show,
    /// List the history and the running session.
    Log,
    /// Sum up a day; today where none is given.
    Day { day: Option<Date> },
    /// Sum up a week; the week of today where none is given.
    Week { week: Option<IsoWeek> },
}

/// What a command leaves to be done.
pub struct OutcomeView {
    pub lines: Seq<Seq<char>>,
    pub changed: bool,
}

/// What a command leaves to be done: the lines to print, and whether the
/// ledger has changed, so that its file is to be written anew.
#[derive(Debug, PartialEq, Eq)]
pub struct Outcome {
    pub(crate) lines: Vec<String>,
    pub(crate) changed: bool,
}

impl View for Outcome {
    type V = OutcomeView;

    open(crate) spec fn view(&self) -> OutcomeView {
        OutcomeView { lines: string_views(self.lines@), changed: self.changed }
    }
}

impl Outcome {
    /// The lines to print, in order.
    pub fn lines(&self) -> (r: &Vec<String>)
        ensures
            string_views(r@) == self@.lines,
    {
        &self.lines
    }

    /// True where the ledger has changed.
    pub fn changed(&self) -> (r: bool)
        ensures
            r == self@.changed,
    {
        self.changed
    }
}

/// The day that a day's summary is about: the given one, or today.
pub open spec fn day_asked(day: Option<Date>, now: int) -> int {
    match day {
        Some(date) => date@,
        None => day_of(now),
    }
}

/// The week that a week's summary is about: the given one, or the week of
/// today.
pub open spec fn week_asked(week: Option<IsoWeek>, now: int) -> (int, int) {
    match week {
        Some(given) => given@,
        None => iso_week_of(day_of(now)),
    }
}

/// The ledger after `command` at `now`, and what the command leaves to be
/// done; `None` where the command fails. Only starting and stopping change
/// the ledger, and then its file is to be written anew. A command that fails
/// changes nothing.
pub open spec fn outcome_of(ledger: LedgerView, command: Command, now: int) -> Option<
    (LedgerView, OutcomeView),
> {
    match command {
        Command::Start => match ledger.started(now) {
            Some(after) => Some((after, OutcomeView { lines: Seq::empty(), changed: true })),
            None => None,
        },
        Command::Stop => match ledger.stopped(now) {
            Some(after) => Some(
                (
                    after,
                    OutcomeView {
                        lines: seq![stopped_text(now - ledger.current->0)],
                        changed: true,
                    },
                ),
            ),
            None => None,
        },
        Command::Show => Some(
            (ledger, OutcomeView { lines: seq![status_text(ledger, now)], changed: false }),
        ),
        Command::Log => Some((ledger, OutcomeView { lines: log_lines(ledger), changed: false })),
        Command::Day { day } => Some(
            (
                ledger,
                OutcomeView {
                    lines: day_report(day_summary_of(ledger, day_asked(day, now), now)),
                    changed: false,
                },
            ),
        ),
        Command::Week { week } => match week_summary_of(ledger, week_asked(week, now), now) {
            Some(summary) => Some(
                (ledger, OutcomeView { lines: week_report(summary), changed: false }),
            ),
            None => None,
        },
    }
}

/// True where `r` and the ledger `after` are what running `command` at `now`
/// on the ledger `before` gives: the outcome and the new ledger where the
/// command succeeds, and else the ledger as it was and the error that tells
/// why. Starting fails while a session runs; stopping fails where none runs
/// or `now` is not past its start; a week's summary fails where the calendar
/// does not agree with itself.
pub open spec fn is_run_at(
    before: LedgerView,
    command: Command,
    now: int,
    after: LedgerView,
    r: Result<Outcome, Error>,
) -> bool {
    match r {
        Ok(outcome) => outcome_of(before, command, now) == Some((after, outcome@)),
        Err(e) => outcome_of(before, command, now) is None && after == before && match command {
            Command::Start => e matches Error::SessionRunning(since) && Some(since@)
                == before.current,
            Command::Stop => if before.current is None {
                e is NoSessionRunning
            } else {
                e is ClockSkew
            },
            _ => e is InternalInconsistency,
        },
    }
}

/// Runs `command` on `ledger` at `now`.
pub fn run_at(ledger: &mut Ledger, command: Command, now: Timestamp) -> (r: Result<
    Outcome,
    Error,
>)
    ensures
        is_run_at(old(ledger)@, command, now@, final(ledger)@, r),
{
    match command {
        Command::Start => match ledger.start_at(now) {
            Ok(()) => {
                let lines: Vec<String> = Vec::new();
                assert(string_views(lines@) =~= Seq::<Seq<char>>::empty());
                Ok(Outcome { lines, changed: true })
            },
            Err(e) => Err(e),
        },
        Command::Stop => match ledger.stop_at(now) {
            Ok(length) => {
                let mut lines: Vec<String> = Vec::new();
                lines.push(stopped_line(&length));
                assert(string_views(lines@) =~= seq![stopped_text(length@)]);
                Ok(Outcome { lines, changed: true })
            },
            Err(e) => Err(e),
        },
        Command::Show => {
            let mut lines: Vec<String> = Vec::new();
            lines.push(ledger.status(now));
            assert(string_views(lines@) =~= seq![status_text(ledger@, now@)]);
            Ok(Outcome { lines, changed: false })
        },
        Command::Log => Ok(Outcome { lines: ledger.log(), changed: false }),
        Command::Day { day } => {
            let date = match day {
                Some(date) => date,
                None => now.date(),
            };
            Ok(Outcome { lines: day_summary(ledger, date, now).report(), changed: false })
        },
        Command::Week { week } => {
            let asked = match week {
                Some(given) => given,
                None => now.iso_week(),
            };
            match week_summary(ledger, asked, now) {
                Ok(summary) => Ok(Outcome { lines: summary.report(), changed: false }),
                Err(e) => Err(e),
            }
        },
    }
}

/// Runs `command` on `ledger` now: at the time of the clock, which is some
/// time that the calendar can name. Showing the state, the log or a day
/// always succeeds, starting succeeds exactly where no session runs, and
/// stopping fails with `NoSessionRunning` exactly where none runs. A command
/// that fails changes nothing; only starting and stopping change the ledger.
pub fn run(ledger: &mut Ledger, command: Command) -> (r: Result<Outcome, Error>)
    ensures
        exists|now: int|
            MIN_SECS <= now <= MAX_SECS && #[trigger] is_run_at(
                old(ledger)@,
                command,
                now,
                final(ledger)@,
                r,
            ),
        command is Show || command is Log || command is Day ==> r is Ok,
        command is Start ==> (r is Ok <==> old(ledger)@.current is None),
        command is Stop ==> (old(ledger)@.current is None <==> (r matches Err(e) && e
            is NoSessionRunning)),
        r is Err ==> final(ledger)@ == old(ledger)@,
        r matches Ok(outcome) ==> (outcome@.changed <==> command is Start || command is Stop),
        r matches Ok(outcome) && !outcome@.changed ==> final(ledger)@ == old(ledger)@,
{
    let now = Timestamp::now();
    run_at(ledger, command, now)
}

} // verus!
