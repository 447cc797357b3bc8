//! What a day and a week add up to.

use crate::calendar::{day_of_week, iso_week_day, iso_week_of};
use crate::error::Error;
use crate::ledger::{is_ascending, spans, Ledger, LedgerView};
use crate::session::{Session, Span};
use crate::time::{day_of, Date, Duration, IsoWeek, Timestamp, MAX_SPAN_SECS};
use vstd::prelude::*;

verus! {

/// One line of a day's summary: a session that is over, or the one that is
/// running, which has no end.
pub struct EntryView {
    pub start: int,
    pub duration: int,
    pub end: Option<int>,
}

/// A day's summary: the time logged on it, and the sessions that make it up.
pub struct DaySummaryView {
    pub date: int,
    pub total: int,
    pub entries: Seq<EntryView>,
}

/// One day of a week's summary.
pub struct DayTotalView {
    pub date: int,
    pub duration: int,
}

/// A week's summary: the time logged in it, and on each of its days from
/// Monday to Sunday.
pub struct WeekSummaryView {
    pub week: (int, int),
    pub total: int,
    pub days: Seq<DayTotalView>,
}

/// A period counts for a day where it starts or ends on it. One that spans
/// midnight counts for both days, each time with its whole length.
pub open spec fn touches(span: Span, day: int) -> bool {
    day_of(span.start) == day || day_of(span.end) == day
}

/// The line of a session that is over.
pub open spec fn closed_entry(span: Span) -> EntryView {
    EntryView { start: span.start, duration: span.duration(), end: Some(span.end) }
}

/// The line of the session that runs since `start`, seen at `now`.
pub open spec fn running_entry(start: int, now: int) -> EntryView {
    EntryView { start, duration: now - start, end: None }
}

/// The lines of the periods of `history` that count for `day`, in the order
/// of the history.
pub open spec fn entries_on(history: Seq<Span>, day: int) -> Seq<EntryView>
    decreases history.len(),
{
    if history.len() == 0 {
        Seq::empty()
    } else if touches(history.last(), day) {
        entries_on(history.drop_last(), day).push(closed_entry(history.last()))
    } else {
        entries_on(history.drop_last(), day)
    }
}

/// The sum of the lengths of `entries`.
pub open spec fn entries_total(entries: Seq<EntryView>) -> int
    decreases entries.len(),
{
    if entries.len() == 0 {
        0
    } else {
        entries_total(entries.drop_last()) + entries.last().duration
    }
}

/// The lines of the summary of `day`: the sessions of the history that
/// count for it and, where `day` is the day of `now`, the session that is
/// running.
pub open spec fn day_entries(ledger: LedgerView, day: int, now: int) -> Seq<EntryView> {
    match ledger.current {
        Some(start) if day == day_of(now) => entries_on(ledger.history, day).push(
            running_entry(start, now),
        ),
        _ => entries_on(ledger.history, day),
    }
}

/// The summary of `day`, seen at `now`.
pub open spec fn day_summary_of(ledger: LedgerView, day: int, now: int) -> DaySummaryView {
    DaySummaryView {
        date: day,
        total: entries_total(day_entries(ledger, day, now)),
        entries: day_entries(ledger, day, now),
    }
}

/// Every line of a day comes from a period of the history that counts for
/// the day.
pub proof fn lemma_entry_has_a_period(history: Seq<Span>, day: int, i: int) -> (k: int)
    requires
        0 <= i < entries_on(history, day).len(),
    ensures
        0 <= k < history.len(),
        touches(history[k], day),
        entries_on(history, day)[i] == closed_entry(history[k]),
    decreases history.len(),
{
    let rest = history.drop_last();
    if touches(history.last(), day) && i == entries_on(rest, day).len() {
        history.len() - 1
    } else {
        lemma_entry_has_a_period(rest, day, i)
    }
}

/// The sessions of a day are listed in the order in which they started.
pub proof fn law_day_entries_in_order(history: Seq<Span>, day: int)
    requires
        is_ascending(history),
    ensures
        forall|i: int, j: int|
            0 <= i < j < entries_on(history, day).len() ==> entries_on(history, day)[i].start
                <= entries_on(history, day)[j].start,
    decreases history.len(),
{
    if history.len() > 0 {
        let rest = history.drop_last();
        let last = history.last();
        assert forall|i: int, j: int| 0 <= i < j < rest.len() implies rest[i].is_before(
            rest[j],
        ) by {
            assert(history[i].is_before(history[j]));
        }
        law_day_entries_in_order(rest, day);
        let listed = entries_on(history, day);
        assert forall|i: int, j: int| 0 <= i < j < listed.len() implies listed[i].start
            <= listed[j].start by {
            if j == entries_on(rest, day).len() {
                let k = lemma_entry_has_a_period(rest, day, i);
                assert(history[k].is_before(history[history.len() - 1]));
            }
        }
    }
}

/// One line of a day's summary.
#[derive(Debug, Clone, Copy, PartialEq, Eq)]
pub struct Entry {
    pub(crate) start: Timestamp,
    pub(crate) duration: Duration,
    pub(crate) end: Option<Timestamp>,
}

impl View for Entry {
    type V = EntryView;

    open(crate) spec fn view(&self) -> EntryView {
        EntryView {
            start: self.start@,
            duration: self.duration@,
            end: match self.end {
                Some(end) => Some(end@),
                None => None,
            },
        }
    }
}

impl Entry {
    /// The time at which the session started.
    pub fn start(&self) -> (r: &Timestamp)
        ensures
            r@ == self@.start,
    {
        &self.start
    }

    /// The length of the session; for the running session, the time run so far.
    pub fn duration(&self) -> (r: Duration)
        ensures
            r@ == self@.duration,
    {
        self.duration
    }

    /// The end of the session; `None` for the session that is running.
    pub fn end(&self) -> (r: Option<Timestamp>)
        ensures
            r is Some <==> self@.end is Some,
            r matches Some(end) ==> self@.end == Some(end@),
    {
        self.end
    }

    /// True of the line of the running session.
    pub fn is_running(&self) -> (r: bool)
        ensures
            r == (self@.end is None),
    {
        self.end.is_none()
    }
}

/// The lines that entries hold.
pub open spec fn entry_views(entries: Seq<Entry>) -> Seq<EntryView> {
    entries.map_values(|e: Entry| e@)
}

/// A day's summary.
#[derive(Debug, PartialEq, Eq)]
pub struct DaySummary {
    pub(crate) date: Date,
    pub(crate) total: Duration,
    pub(crate) entries: Vec<Entry>,
}

impl View for DaySummary {
    type V = DaySummaryView;

    open(crate) spec fn view(&self) -> DaySummaryView {
        DaySummaryView {
            date: self.date@,
            total: self.total@,
            entries: entry_views(self.entries@),
        }
    }
}

impl DaySummary {
    /// The day that is summed up.
    pub fn date(&self) -> (r: Date)
        ensures
            r@ == self@.date,
    {
        self.date
    }

    /// The time logged on the day.
    pub fn total(&self) -> (r: Duration)
        ensures
            r@ == self@.total,
    {
        self.total
    }

    /// The sessions of the day, in the order of the history; the running
    /// session comes last.
    pub fn entries(&self) -> (r: &Vec<Entry>)
        ensures
            entry_views(r@) == self@.entries,
    {
        &self.entries
    }

    /// True where nothing was logged on the day: the total is zero.
    pub fn is_blank(&self) -> (r: bool)
        ensures
            r == (self@.total == 0),
    {
        self.total.is_zero()
    }
}

/// The summary of `date` from `ledger`, seen at `now`: every session that
/// starts or ends on `date`, and the running session where `date` is today.
pub fn day_summary(ledger: &Ledger, date: Date, now: Timestamp) -> (r: DaySummary)
    ensures
        r@ == day_summary_of(ledger@, date@, now@),
{
    let history = ledger.history();
    let day: i32 = date.days();
    let mut entries: Vec<Entry> = Vec::new();
    let mut total: i128 = 0;
    let mut i: usize = 0;
    while i < history.len()
        invariant
            i <= history.len(),
            day == date@,
            entry_views(entries@) == entries_on(spans(history@).take(i as int), date@),
            total == entries_total(entry_views(entries@)),
            -(i * MAX_SPAN_SECS) <= total <= i * MAX_SPAN_SECS,
        decreases history.len() - i,
    {
        proof {
            let all = spans(history@);
            assert(all.take(i + 1).drop_last() =~= all.take(i as int));
        }
        let session: &Session = &history[i];
        if session.start().date().days() == day || session.end().date().days() == day {
            let length = session.duration();
            let ghost before = entry_views(entries@);
            entries.push(Entry { start: session.start, duration: length, end: Some(session.end) });
            assert(entry_views(entries@).drop_last() =~= before);
            total = total + length.num_seconds();
        }
        i += 1;
    }
    assert(spans(history@).take(i as int) =~= spans(history@));
    if now.date().days() == day {
        if let Some(start) = ledger.current() {
            let length = Duration::between(&start, &now);
            let ghost before = entry_views(entries@);
            entries.push(Entry { start, duration: length, end: None });
            assert(entry_views(entries@) =~= before.push(running_entry(start@, now@)));
            assert(entry_views(entries@).drop_last() =~= before);
            total = total + length.num_seconds();
        }
    }
    DaySummary { date, total: Duration { secs: total }, entries }
}

/// True of a period that belongs to `week`: it starts in it. Where it ends
/// does not count.
pub open spec fn in_week(span: Span, week: (int, int)) -> bool {
    iso_week_of(day_of(span.start)) == week
}

/// The place of `day` among `days`: the index of its first occurrence.
pub open spec fn bucket_of(days: Seq<int>, day: int) -> Option<int>
    decreases days.len(),
{
    if days.len() == 0 {
        None
    } else if days[0] == day {
        Some(0)
    } else {
        match bucket_of(days.drop_first(), day) {
            Some(i) => Some(i + 1),
            None => None,
        }
    }
}

/// The day with index `i` that the calendar finds for `week`.
pub open spec fn found_day(week: (int, int), i: int) -> Option<int> {
    iso_week_day(week.0, week.1, i)
}

/// The seven days of `week`, Monday first, where the calendar finds them
/// all.
pub open spec fn week_days(week: (int, int)) -> Option<Seq<int>> {
    if forall|i: int| 0 <= i < 7 ==> (#[trigger] found_day(week, i)) is Some {
        Some(Seq::new(7, |i: int| found_day(week, i)->0))
    } else {
        None
    }
}

/// True where every period of `history` that belongs to `week` starts on one
/// of `days`.
pub open spec fn week_holds(history: Seq<Span>, week: (int, int), days: Seq<int>) -> bool {
    forall|k: int|
        0 <= k < history.len() && in_week(#[trigger] history[k], week) ==> bucket_of(
            days,
            day_of(history[k].start),
        ) is Some
}

/// The time that the periods of `history` log in `week`.
pub open spec fn week_total(history: Seq<Span>, week: (int, int)) -> int
    decreases history.len(),
{
    if history.len() == 0 {
        0
    } else {
        week_total(history.drop_last(), week) + if in_week(history.last(), week) {
            history.last().duration()
        } else {
            0
        }
    }
}

/// The time that the periods of `history` log in `week` on the day with
/// index `i` of `days`: each period counts for the day on which it starts.
pub open spec fn bucket_total(history: Seq<Span>, week: (int, int), days: Seq<int>, i: int) -> int
    decreases history.len(),
{
    if history.len() == 0 {
        0
    } else {
        bucket_total(history.drop_last(), week, days, i) + if in_week(history.last(), week)
            && bucket_of(days, day_of(history.last().start)) == Some(i) {
            history.last().duration()
        } else {
            0
        }
    }
}

/// The running session as a week sees it: today, and the time run so far.
pub struct RunningView {
    pub day: int,
    pub length: int,
}

/// The running session as `week` sees it at `now`, where a session is
/// running and `now` lies in `week`.
pub open spec fn running_in(ledger: LedgerView, week: (int, int), now: int) -> Option<
    RunningView,
> {
    match ledger.current {
        Some(start) if iso_week_of(day_of(now)) == week => Some(
            RunningView { day: day_of(now), length: now - start },
        ),
        _ => None,
    }
}

/// What the running session adds to the day with index `i` of `days`.
pub open spec fn running_share(running: Option<RunningView>, days: Seq<int>, i: int) -> int {
    match running {
        Some(run) if bucket_of(days, run.day) == Some(i) => run.length,
        _ => 0,
    }
}

/// The summary of `week`, seen at `now`, or `None` where the calendar does
/// not find the seven days of the week, or places in the week a time that
/// is on none of them.
pub open spec fn week_summary_of(ledger: LedgerView, week: (int, int), now: int) -> Option<
    WeekSummaryView,
> {
    match week_days(week) {
        None => None,
        Some(days) => {
            let running = running_in(ledger, week, now);
            if !week_holds(ledger.history, week, days) {
                None
            } else if running is Some && bucket_of(days, running->0.day) is None {
                None
            } else {
                Some(
                    WeekSummaryView {
                        week,
                        total: week_total(ledger.history, week) + match running {
                            Some(run) => run.length,
                            None => 0,
                        },
                        days: Seq::new(
                            7,
                            |i: int|
                                DayTotalView {
                                    date: days[i],
                                    duration: bucket_total(ledger.history, week, days, i)
                                        + running_share(running, days, i),
                                },
                        ),
                    },
                )
            }
        },
    }
}

/// A period of the week that starts on none of its days shows in every
/// longer history.
pub proof fn lemma_week_breaks(history: Seq<Span>, week: (int, int), days: Seq<int>, k: int)
    requires
        0 <= k < history.len(),
        in_week(history[k], week),
        bucket_of(days, day_of(history[k].start)) is None,
    ensures
        !week_holds(history, week, days),
{
}


/// The place of a day among seven is one of the seven.
pub proof fn lemma_bucket_in_range(days: Seq<int>, day: int)
    ensures
        bucket_of(days, day) matches Some(i) ==> 0 <= i < days.len() && days[i] == day,
    decreases days.len(),
{
    if days.len() > 0 && days[0] != day {
        lemma_bucket_in_range(days.drop_first(), day);
    }
}

/// The sum of the seven days of a summary.
pub open spec fn days_total(days: Seq<DayTotalView>) -> int {
    days[0].duration + days[1].duration + days[2].duration + days[3].duration + days[4].duration
        + days[5].duration + days[6].duration
}

/// The time logged in a week is the sum of the time logged on its seven
/// days, where every period of the week starts on one of them.
pub proof fn law_week_total(history: Seq<Span>, week: (int, int), days: Seq<int>)
    requires
        days.len() == 7,
        week_holds(history, week, days),
    ensures
        week_total(history, week) == bucket_total(history, week, days, 0) + bucket_total(
            history,
            week,
            days,
            1,
        ) + bucket_total(history, week, days, 2) + bucket_total(history, week, days, 3)
            + bucket_total(history, week, days, 4) + bucket_total(history, week, days, 5)
            + bucket_total(history, week, days, 6),
    decreases history.len(),
{
    if history.len() > 0 {
        let rest = history.drop_last();
        assert forall|k: int| 0 <= k < rest.len() && in_week(#[trigger] rest[k], week) implies bucket_of(
            days,
            day_of(rest[k].start),
        ) is Some by {
            assert(rest[k] == history[k]);
        }
        law_week_total(rest, week, days);
        let last = history.last();
        assert(last == history[history.len() - 1]);
        if in_week(last, week) {
            lemma_bucket_in_range(days, day_of(last.start));
        }
    }
}

/// A day of the week on which no period of the week starts logs nothing.
pub proof fn law_day_without_sessions(
    history: Seq<Span>,
    week: (int, int),
    days: Seq<int>,
    i: int,
)
    requires
        forall|k: int|
            0 <= k < history.len() && in_week(#[trigger] history[k], week) ==> bucket_of(
                days,
                day_of(history[k].start),
            ) != Some(i),
    ensures
        bucket_total(history, week, days, i) == 0,
    decreases history.len(),
{
    if history.len() > 0 {
        let rest = history.drop_last();
        assert forall|k: int| 0 <= k < rest.len() && in_week(#[trigger] rest[k], week) implies bucket_of(
            days,
            day_of(rest[k].start),
        ) != Some(i) by {
            assert(rest[k] == history[k]);
        }
        law_day_without_sessions(rest, week, days, i);
        assert(history.last() == history[history.len() - 1]);
    }
}

/// One day of a week's summary: the day and the time logged on it.
#[derive(Debug, Clone, Copy, PartialEq, Eq)]
pub struct DayTotal {
    pub(crate) date: Date,
    pub(crate) duration: Duration,
}

impl View for DayTotal {
    type V = DayTotalView;

    open(crate) spec fn view(&self) -> DayTotalView {
        DayTotalView { date: self.date@, duration: self.duration@ }
    }
}

impl DayTotal {
    /// The day.
    pub fn date(&self) -> (r: Date)
        ensures
            r@ == self@.date,
    {
        self.date
    }

    /// The time logged on the day.
    pub fn duration(&self) -> (r: Duration)
        ensures
            r@ == self@.duration,
    {
        self.duration
    }
}

/// The days that day totals hold.
pub open spec fn day_total_views(days: Seq<DayTotal>) -> Seq<DayTotalView> {
    days.map_values(|d: DayTotal| d@)
}

/// A week's summary.
#[derive(Debug, PartialEq, Eq)]
pub struct WeekSummary {
    pub(crate) week: IsoWeek,
    pub(crate) total: Duration,
    pub(crate) days: Vec<DayTotal>,
}

impl View for WeekSummary {
    type V = WeekSummaryView;

    open(crate) spec fn view(&self) -> WeekSummaryView {
        WeekSummaryView {
            week: self.week@,
            total: self.total@,
            days: day_total_views(self.days@),
        }
    }
}

impl WeekSummary {
    /// The week that is summed up.
    pub fn week(&self) -> (r: IsoWeek)
        ensures
            r@ == self@.week,
    {
        self.week
    }

    /// The time logged in the week.
    pub fn total(&self) -> (r: Duration)
        ensures
            r@ == self@.total,
    {
        self.total
    }

    /// The days of the week from Monday to Sunday, each with the time
    /// logged on it.
    pub fn days(&self) -> (r: &Vec<DayTotal>)
        ensures
            day_total_views(r@) == self@.days,
    {
        &self.days
    }

    /// True where nothing was logged in the week: the total is zero.
    pub fn is_blank(&self) -> (r: bool)
        ensures
            r == (self@.total == 0),
    {
        self.total.is_zero()
    }
}

/// The days of dates.
pub open spec fn date_views(dates: Seq<Date>) -> Seq<int> {
    dates.map_values(|d: Date| d@)
}

/// The seven days of `week`, Monday first.
fn days_of_week(week: IsoWeek) -> (r: Option<Vec<Date>>)
    ensures
        r matches Some(days) ==> week_days(week@) == Some(date_views(days@)),
        r is None ==> week_days(week@) is None,
{
    let mut days: Vec<Date> = Vec::new();
    let mut i: u8 = 0;
    while i < 7
        invariant
            i <= 7,
            days@.len() == i,
            forall|k: int| 0 <= k < i ==> found_day(week@, k) == Some(#[trigger] days@[k]@),
        decreases 7 - i,
    {
        match day_of_week(week.year(), week.week(), i) {
            Some(day) => {
                days.push(Date { days: day });
            },
            None => {
                assert(found_day(week@, i as int) is None);
                return None;
            },
        }
        i += 1;
    }
    proof {
        assert forall|k: int| 0 <= k < 7 implies (#[trigger] found_day(week@, k)) is Some by {
            assert(found_day(week@, k) == Some(days@[k]@));
        }
    }
    Some(days)
}

/// The index of the first of `days` that is `day`.
fn bucket(days: &Vec<Date>, day: Date) -> (r: Option<usize>)
    ensures
        r matches Some(i) ==> bucket_of(date_views(days@), day@) == Some(i as int) && i
            < days.len(),
        r is None ==> bucket_of(date_views(days@), day@) is None,
{
    let ghost all = date_views(days@);
    let mut i: usize = 0;
    assert(all.skip(0) =~= all);
    while i < days.len()
        invariant
            i <= days.len(),
            all == date_views(days@),
            bucket_of(all, day@) == match bucket_of(all.skip(i as int), day@) {
                Some(k) => Some(k + i),
                None => None,
            },
        decreases days.len() - i,
    {
        proof {
            assert(all.skip(i as int).drop_first() =~= all.skip(i + 1));
        }
        if days[i].days() == day.days() {
            return Some(i);
        }
        i += 1;
    }
    None
}

/// The summary of `week` from `ledger`, seen at `now`: for each day from
/// Monday to Sunday the time of the sessions that start on it, and with
/// today's the time of the running session where `now` lies in `week`. It
/// fails where the calendar does not find the seven days of the week, or
/// places in the week a time that is on none of them.
pub fn week_summary(ledger: &Ledger, week: IsoWeek, now: Timestamp) -> (r: Result<
    WeekSummary,
    Error,
>)
    ensures
        r matches Ok(summary) ==> week_summary_of(ledger@, week@, now@) == Some(summary@)
            && summary@.total == days_total(summary@.days),
        r matches Err(e) ==> week_summary_of(ledger@, week@, now@) is None && e
            is InternalInconsistency,
{
    let days = match days_of_week(week) {
        Some(days) => days,
        None => {
            return Err(Error::InternalInconsistency);
        },
    };
    let ghost dates = date_views(days@);
    let history = ledger.history();
    let ghost all = spans(history@);
    let mut totals: Vec<i128> = vec![0i128; 7];
    let mut total: i128 = 0;
    let mut i: usize = 0;
    while i < history.len()
        invariant
            i <= history.len(),
            all == spans(history@),
            dates == date_views(days@),
            dates.len() == 7,
            totals@.len() == 7,
            all == ledger@.history,
            week_days(week@) == Some(dates),
            week_holds(all.take(i as int), week@, dates),
            total == week_total(all.take(i as int), week@),
            forall|k: int|
                0 <= k < 7 ==> #[trigger] totals@[k] == bucket_total(
                    all.take(i as int),
                    week@,
                    dates,
                    k,
                ),
            -(i * MAX_SPAN_SECS) <= total <= i * MAX_SPAN_SECS,
            forall|k: int|
                0 <= k < 7 ==> -(i * MAX_SPAN_SECS) <= #[trigger] totals@[k] <= i
                    * MAX_SPAN_SECS,
        decreases history.len() - i,
    {
        proof {
            assert(all.take(i + 1).drop_last() =~= all.take(i as int));
        }
        let session: &Session = &history[i];
        if session.start().iso_week() == week {
            let length: i128 = session.duration().num_seconds();
            match bucket(&days, session.start().date()) {
                Some(at) => {
                    let sum: i128 = totals[at] + length;
                    totals.set(at, sum);
                    total = total + length;
                },
                None => {
                    proof {
                        lemma_week_breaks(all, week@, dates, i as int);
                    }
                    return Err(Error::InternalInconsistency);
                },
            }
        }
        i += 1;
    }
    assert(all.take(i as int) =~= all);
    let ghost running = running_in(ledger@, week@, now@);
    if now.iso_week() == week {
        if let Some(start) = ledger.current() {
            let length: i128 = Duration::between(&start, &now).num_seconds();
            match bucket(&days, now.date()) {
                Some(at) => {
                    let sum: i128 = totals[at] + length;
                    totals.set(at, sum);
                    total = total + length;
                },
                None => {
                    return Err(Error::InternalInconsistency);
                },
            }
        }
    }
    let mut out: Vec<DayTotal> = Vec::new();
    let mut k: usize = 0;
    while k < 7
        invariant
            k <= 7,
            days@.len() == 7,
            totals@.len() == 7,
            out@.len() == k,
            forall|j: int|
                0 <= j < k ==> (#[trigger] out@[j])@ == (DayTotalView {
                    date: days@[j]@,
                    duration: totals@[j] as int,
                }),
        decreases 7 - k,
    {
        out.push(DayTotal { date: days[k], duration: Duration { secs: totals[k] } });
        k += 1;
    }
    let summary = WeekSummary { week, total: Duration { secs: total }, days: out };
    proof {
        let expected = week_summary_of(ledger@, week@, now@)->0;
        assert(summary@.days =~= expected.days);
        law_week_total(all, week@, dates);
        if running is Some {
            lemma_bucket_in_range(dates, running->0.day);
        }
    }
    Ok(summary)
}

} // verus!
