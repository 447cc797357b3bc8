//! The lines in which the state of the ledger and the summaries are shown.

use crate::calendar::datetime_text;
use crate::format::{
    duration_text, push_duration, DATETIME_FMT, DATE_FMT, TIME_FMT, WEEKDAY_FMT,
};
use crate::ledger::{Ledger, LedgerView};
use crate::session::Span;
use crate::summary::{
    DaySummary, DaySummaryView, DayTotalView, EntryView, WeekSummary, WeekSummaryView,
};
use crate::text::{append, append_str, decimal, push_decimal, string_of, texts};
use crate::time::{date_text, stamp, Duration, Timestamp};
use vstd::prelude::*;

verus! {

/// The mark in front of line `i` of `n` lines that hang from a heading: a
/// branch, and a corner for the last line.
pub open spec fn tree_mark(i: int, n: int) -> Seq<char> {
    if i + 1 < n {
        "\u{251c} "@
    } else {
        "\u{2514} "@
    }
}

/// `lines`, each with its mark in front.
pub open spec fn tree(lines: Seq<Seq<char>>) -> Seq<Seq<char>> {
    Seq::new(lines.len(), |i: int| tree_mark(i, lines.len() as int) + lines[i])
}

/// The texts that strings hold.
pub open spec fn string_views(lines: Seq<String>) -> Seq<Seq<char>> {
    lines.map_values(|line: String| line@)
}

/// The line of one session of a day: when it started, how long it lasted,
/// and when it ended or that it is running.
pub open spec fn entry_text(entry: EntryView) -> Seq<char> {
    datetime_text(entry.start, TIME_FMT@) + " -- "@ + duration_text(entry.duration) + " --> "@
        + match entry.end {
        Some(end) => datetime_text(end, TIME_FMT@),
        None => "STILL RUNNING"@,
    }
}

/// The lines of the sessions of a day.
pub open spec fn entry_texts(entries: Seq<EntryView>) -> Seq<Seq<char>> {
    entries.map_values(|entry: EntryView| entry_text(entry))
}

/// The lines that show a day's summary: a heading with the time logged and
/// the sessions under it, or one line where the total is zero.
pub open spec fn day_report(summary: DaySummaryView) -> Seq<Seq<char>> {
    if summary.total == 0 {
        seq!["No sessions were logged on "@ + date_text(summary.date, DATE_FMT@)]
    } else {
        seq![
            "Logged "@ + duration_text(summary.total) + " on "@ + date_text(
                summary.date,
                DATE_FMT@,
            ),
        ] + tree(entry_texts(summary.entries))
    }
}

/// The line of one day of a week.
pub open spec fn day_total_text(day: DayTotalView) -> Seq<char> {
    date_text(day.date, WEEKDAY_FMT@) + ": "@ + duration_text(day.duration)
}

/// The lines of the days of a week.
pub open spec fn day_total_texts(days: Seq<DayTotalView>) -> Seq<Seq<char>> {
    days.map_values(|day: DayTotalView| day_total_text(day))
}

/// The name of a week: its number, a hyphen, its year.
pub open spec fn week_name(week: (int, int)) -> Seq<char> {
    decimal(week.1).push('-') + decimal(week.0)
}

/// The lines that show a week's summary: a heading with the time logged and
/// the days under it, or one line where the total is zero.
pub open spec fn week_report(summary: WeekSummaryView) -> Seq<Seq<char>> {
    if summary.total == 0 {
        seq!["No sessions were logged on week "@ + week_name(summary.week)]
    } else {
        seq![
            "Logged "@ + duration_text(summary.total) + " on week "@ + week_name(summary.week),
        ] + tree(day_total_texts(summary.days))
    }
}

/// The line that tells whether a session is running at `now`, since when
/// and for how long.
pub open spec fn status_text(ledger: LedgerView, now: int) -> Seq<char> {
    match ledger.current {
        Some(start) => "Session running since "@ + datetime_text(start, TIME_FMT@) + " ("@
            + duration_text(now - start) + ")"@,
        None => "No session running"@,
    }
}

/// The line that tells that a session ended after `secs` seconds.
pub open spec fn stopped_text(secs: int) -> Seq<char> {
    "Session ended ("@ + duration_text(secs) + ")"@
}

/// The texts that show the periods of `history`.
pub open spec fn span_texts(history: Seq<Span>) -> Seq<Seq<char>> {
    history.map_values(|span: Span| span.text())
}

/// The lines of the log: every session of the history, then the start of
/// the running one.
pub open spec fn log_lines(ledger: LedgerView) -> Seq<Seq<char>> {
    match ledger.current {
        Some(start) => span_texts(ledger.history).push(stamp(start)),
        None => span_texts(ledger.history),
    }
}

/// The strings of the given lines.
fn strings_of(lines: &Vec<Vec<char>>) -> (r: Vec<String>)
    ensures
        string_views(r@) == texts(lines@),
{
    let mut r: Vec<String> = Vec::new();
    let mut i: usize = 0;
    while i < lines.len()
        invariant
            i <= lines.len(),
            r@.len() == i,
            forall|k: int| 0 <= k < i ==> (#[trigger] r@[k])@ == lines@[k]@,
        decreases lines.len() - i,
    {
        r.push(string_of(&lines[i]));
        i += 1;
    }
    r
}

/// Appends `lines` to `out`, each with its mark in front.
fn push_tree(out: &mut Vec<Vec<char>>, lines: &Vec<Vec<char>>)
    ensures
        texts(final(out)@) == texts(old(out)@) + tree(texts(lines@)),
{
    let n: usize = lines.len();
    let mut i: usize = 0;
    while i < n
        invariant
            i <= n == lines.len(),
            texts(out@) == texts(old(out)@) + tree(texts(lines@)).take(i as int),
        decreases n - i,
    {
        let mut line: Vec<char> = Vec::new();
        if i + 1 < n {
            append_str(&mut line, "\u{251c} ");
        } else {
            append_str(&mut line, "\u{2514} ");
        }
        append(&mut line, &lines[i]);
        let ghost before = texts(out@);
        out.push(line);
        assert(texts(out@) =~= before.push(line@));
        i += 1;
    }
}

/// The lines of a list that hangs from a heading: each line with a branch
/// in front, the last with a corner.
pub fn tree_lines(logs: &Vec<String>) -> (r: Vec<String>)
    ensures
        string_views(r@) == tree(string_views(logs@)),
{
    let mut lines: Vec<Vec<char>> = Vec::new();
    let mut i: usize = 0;
    while i < logs.len()
        invariant
            i <= logs.len(),
            lines@.len() == i,
            forall|k: int| 0 <= k < i ==> (#[trigger] lines@[k])@ == logs@[k]@,
        decreases logs.len() - i,
    {
        let mut line: Vec<char> = Vec::new();
        append_str(&mut line, logs[i].as_str());
        lines.push(line);
        i += 1;
    }
    let mut out: Vec<Vec<char>> = Vec::new();
    push_tree(&mut out, &lines);
    strings_of(&out)
}

impl DaySummary {
    /// The lines that show this summary.
    pub fn report(&self) -> (r: Vec<String>)
        ensures
            string_views(r@) == day_report(self@),
    {
        let mut out: Vec<Vec<char>> = Vec::new();
        let mut head: Vec<char> = Vec::new();
        let date = self.date.format(DATE_FMT);
        if self.total.is_zero() {
            append_str(&mut head, "No sessions were logged on ");
            append(&mut head, &date);
            out.push(head);
            return strings_of(&out);
        }
        append_str(&mut head, "Logged ");
        push_duration(&mut head, &self.total);
        append_str(&mut head, " on ");
        append(&mut head, &date);
        out.push(head);
        let mut lines: Vec<Vec<char>> = Vec::new();
        let mut i: usize = 0;
        while i < self.entries.len()
            invariant
                i <= self.entries.len(),
                lines@.len() == i,
                forall|k: int|
                    0 <= k < i ==> (#[trigger] lines@[k])@ == entry_text(self.entries@[k]@),
            decreases self.entries.len() - i,
        {
            let entry = &self.entries[i];
            let mut line: Vec<char> = entry.start.format(TIME_FMT);
            append_str(&mut line, " -- ");
            push_duration(&mut line, &entry.duration);
            append_str(&mut line, " --> ");
            match entry.end {
                Some(end) => {
                    let at = end.format(TIME_FMT);
                    append(&mut line, &at);
                },
                None => {
                    append_str(&mut line, "STILL RUNNING");
                },
            }
            lines.push(line);
            i += 1;
        }
        push_tree(&mut out, &lines);
        strings_of(&out)
    }
}

/// Appends the name of `week` to `buf`.
fn push_week_name(buf: &mut Vec<char>, summary: &WeekSummary)
    ensures
        final(buf)@ == old(buf)@ + week_name(summary@.week),
{
    push_decimal(buf, summary.week.week() as i128);
    buf.push('-');
    push_decimal(buf, summary.week.year() as i128);
}

impl WeekSummary {
    /// The lines that show this summary.
    pub fn report(&self) -> (r: Vec<String>)
        ensures
            string_views(r@) == week_report(self@),
    {
        let mut out: Vec<Vec<char>> = Vec::new();
        let mut head: Vec<char> = Vec::new();
        if self.total.is_zero() {
            append_str(&mut head, "No sessions were logged on week ");
            push_week_name(&mut head, self);
            out.push(head);
            return strings_of(&out);
        }
        append_str(&mut head, "Logged ");
        push_duration(&mut head, &self.total);
        append_str(&mut head, " on week ");
        push_week_name(&mut head, self);
        out.push(head);
        let mut lines: Vec<Vec<char>> = Vec::new();
        let mut i: usize = 0;
        while i < self.days.len()
            invariant
                i <= self.days.len(),
                lines@.len() == i,
                forall|k: int|
                    0 <= k < i ==> (#[trigger] lines@[k])@ == day_total_text(self.days@[k]@),
            decreases self.days.len() - i,
        {
            let day = &self.days[i];
            let mut line: Vec<char> = day.date.format(WEEKDAY_FMT);
            append_str(&mut line, ": ");
            push_duration(&mut line, &day.duration);
            lines.push(line);
            i += 1;
        }
        push_tree(&mut out, &lines);
        strings_of(&out)
    }
}

impl Ledger {
    /// The line that tells whether a session is running at `now`.
    pub fn status(&self, now: Timestamp) -> (r: String)
        ensures
            r@ == status_text(self@, now@),
    {
        let mut line: Vec<char> = Vec::new();
        match self.current {
            Some(start) => {
                append_str(&mut line, "Session running since ");
                let since = start.format(TIME_FMT);
                append(&mut line, &since);
                append_str(&mut line, " (");
                let length = Duration::between(&start, &now);
                push_duration(&mut line, &length);
                append_str(&mut line, ")");
            },
            None => {
                append_str(&mut line, "No session running");
            },
        }
        string_of(&line)
    }

    /// The lines of the log: every session of the history in order, then
    /// the start of the running session.
    pub fn log(&self) -> (r: Vec<String>)
        ensures
            string_views(r@) == log_lines(self@),
    {
        let mut out: Vec<Vec<char>> = Vec::new();
        let mut i: usize = 0;
        while i < self.history.len()
            invariant
                i <= self.history.len(),
                out@.len() == i,
                forall|k: int| 0 <= k < i ==> (#[trigger] out@[k])@ == self.history@[k]@.text(),
            decreases self.history.len() - i,
        {
            let mut line: Vec<char> = Vec::new();
            self.history[i].push_text(&mut line);
            out.push(line);
            i += 1;
        }
        if let Some(start) = self.current {
            out.push(start.format(DATETIME_FMT));
        }
        strings_of(&out)
    }
}

/// The line that tells that a session ended after `length`.
pub fn stopped_line(length: &Duration) -> (r: String)
    ensures
        r@ == stopped_text(length@),
{
    let mut line: Vec<char> = Vec::new();
    append_str(&mut line, "Session ended (");
    push_duration(&mut line, length);
    append_str(&mut line, ")");
    string_of(&line)
}

} // verus!
