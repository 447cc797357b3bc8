//! The record of all sessions: those that are over, in ascending order and
//! each once, and the start of the one that is running, if one is.

use crate::calendar::{datetime_text, is_plain, YEAR_ZERO_SECS};
use crate::error::Error;
use crate::format::{DATETIME_FMT, PLAIN_FMT};
use crate::session::{law_line_reads_back, lemma_plain_has_no_hyphen, span_read, Session, Span};
use crate::text::{
    append, append_str, chars_of, lemma_split_extend, lemma_split_pair, lemma_split_separator,
    lemma_split_whole, lemma_trim_keeps, split, split_at, string_of, texts, trim, trimmed,
};
use crate::time::{is_canonical, stamp, stamp_read, Duration, Timestamp};
use vstd::prelude::*;

verus! {

/// The periods of a sequence of sessions.
pub open spec fn spans(sessions: Seq<Session>) -> Seq<Span> {
    sessions.map_values(|s: Session| s@)
}

/// True of periods that stand in strictly ascending order, so that none
/// occurs twice.
pub open spec fn is_ascending(history: Seq<Span>) -> bool {
    forall|i: int, j: int| 0 <= i < j < history.len() ==> history[i].is_before(history[j])
}

/// `history` with `span` at its place in the order; a period that is there
/// already is not added again.
pub open spec fn inserted(history: Seq<Span>, span: Span) -> Seq<Span>
    decreases history.len(),
{
    if history.len() == 0 {
        seq![span]
    } else if history.last().is_before(span) {
        history.push(span)
    } else if history.last() == span {
        history
    } else {
        inserted(history.drop_last(), span).push(history.last())
    }
}

/// What a ledger holds: the periods of its history in ascending order, and
/// the start of the running session.
pub struct LedgerView {
    pub history: Seq<Span>,
    pub current: Option<int>,
}

impl LedgerView {
    /// The ledger that holds nothing.
    pub open spec fn empty() -> LedgerView {
        LedgerView { history: Seq::empty(), current: None }
    }

    /// The ledger after a session is started at `now`, or `None` where one
    /// is running.
    pub open spec fn started(self, now: int) -> Option<LedgerView> {
        if self.current is Some {
            None
        } else {
            Some(LedgerView { history: self.history, current: Some(now) })
        }
    }

    /// The ledger after the running session is stopped at `now`, or `None`
    /// where none is running or `now` is not after its start.
    pub open spec fn stopped(self, now: int) -> Option<LedgerView> {
        match self.current {
            Some(start) => if start < now {
                Some(
                    LedgerView {
                        history: inserted(self.history, Span { start, end: now }),
                        current: None,
                    },
                )
            } else {
                None
            },
            None => None,
        }
    }

    /// The text of the ledger's file: a line for each period of the history,
    /// in order, then a line with the start of the running session, if one
    /// is running.
    pub open spec fn text(self) -> Seq<char> {
        history_text(self.history) + match self.current {
            Some(start) => stamp(start).push('\n'),
            None => Seq::empty(),
        }
    }

    /// The text that shows the ledger: a heading, the history line by line,
    /// and a last line that tells whether a session is running.
    pub open spec fn report(self) -> Seq<char> {
        "HISTORY:\n"@ + history_report(self.history) + match self.current {
            Some(start) => "SESSION ACTIVE SINCE "@ + datetime_text(start, PLAIN_FMT@),
            None => "NO ACTIVE SESSION"@,
        }
    }

    /// True where the calendar says of every time of the ledger what it says
    /// of each time that it writes.
    pub open spec fn is_canonical(self) -> bool {
        &&& all_canonical(self.history)
        &&& self.current matches Some(start) ==> is_canonical(start)
    }

    /// True where no period of the history starts or ends before the year 0.
    pub open spec fn is_since_year_zero(self) -> bool {
        all_since_year_zero(self.history)
    }

    /// The ledger after one more line of its file: an empty line changes
    /// nothing, the text of a period adds it to the history, and any other
    /// line must be the text of a time, which becomes the running session's
    /// start in place of an earlier one.
    pub open spec fn with_line(self, line: Seq<char>) -> Option<LedgerView> {
        let entry = trim(line);
        if entry.len() == 0 {
            Some(self)
        } else if span_read(entry) is Some {
            Some(
                LedgerView {
                    history: inserted(self.history, span_read(entry)->0),
                    current: self.current,
                },
            )
        } else if stamp_read(entry) is Some {
            Some(LedgerView { history: self.history, current: stamp_read(entry) })
        } else {
            None
        }
    }
}

/// True where every period of `history` ends after it starts.
pub open spec fn all_well_formed(history: Seq<Span>) -> bool {
    forall|i: int| 0 <= i < history.len() ==> (#[trigger] history[i]).is_well_formed()
}

/// True where the calendar says of every bound of `history` what it says of
/// each time that it writes.
pub open spec fn all_canonical(history: Seq<Span>) -> bool {
    forall|i: int| 0 <= i < history.len() ==> (#[trigger] history[i]).is_canonical()
}

/// True where no period of `history` starts or ends before the year 0.
pub open spec fn all_since_year_zero(history: Seq<Span>) -> bool {
    forall|i: int| 0 <= i < history.len() ==> (#[trigger] history[i]).is_since_year_zero()
}

/// The lines of the file for the periods of `history`, each ended by a line
/// feed.
pub open spec fn history_text(history: Seq<Span>) -> Seq<char>
    decreases history.len(),
{
    if history.len() == 0 {
        Seq::empty()
    } else {
        history_text(history.drop_last()) + history.last().line().push('\n')
    }
}

/// The lines that show the periods of `history`, each set in by two blanks
/// and ended by a line feed.
pub open spec fn history_report(history: Seq<Span>) -> Seq<char>
    decreases history.len(),
{
    if history.len() == 0 {
        Seq::empty()
    } else {
        history_report(history.drop_last()) + "  "@ + history.last().text().push('\n')
    }
}

/// The canonical texts of the periods of `history`.
pub open spec fn history_lines(history: Seq<Span>) -> Seq<Seq<char>> {
    history.map_values(|span: Span| span.line())
}

/// The start of the running session as a number.
pub open spec fn start_of(current: Option<Timestamp>) -> Option<int> {
    match current {
        Some(start) => Some(start@),
        None => None,
    }
}

/// The ledger that the lines of a file hold, or `None` where one of them is
/// neither empty, nor a period, nor a time.
pub open spec fn lines_read(lines: Seq<Seq<char>>) -> Option<LedgerView>
    decreases lines.len(),
{
    if lines.len() == 0 {
        Some(LedgerView::empty())
    } else {
        match lines_read(lines.drop_last()) {
            Some(ledger) => ledger.with_line(lines.last()),
            None => None,
        }
    }
}

/// The ledger that the text of a file holds.
pub open spec fn ledger_read(content: Seq<char>) -> Option<LedgerView> {
    lines_read(split(content, '\n'))
}

/// A line that cannot be read spoils the file, whatever follows it.
pub proof fn lemma_lines_read_stops(lines: Seq<Seq<char>>, k: int)
    requires
        0 <= k <= lines.len(),
        lines_read(lines.take(k)) is None,
    ensures
        lines_read(lines) is None,
    decreases lines.len() - k,
{
    if k < lines.len() {
        assert(lines.take(k + 1).drop_last() =~= lines.take(k));
        lemma_lines_read_stops(lines, k + 1);
    } else {
        assert(lines.take(k) =~= lines);
    }
}

/// Where `span` belongs at index `at` of `history`, after what is not after
/// it and before all that is, it is inserted there, unless it stands just
/// before that place already.
pub proof fn lemma_inserted_at(history: Seq<Span>, span: Span, at: int)
    requires
        0 <= at <= history.len(),
        forall|j: int| at <= j < history.len() ==> span.is_before(#[trigger] history[j]),
        at > 0 ==> !span.is_before(history[at - 1]),
    ensures
        inserted(history, span) == if at > 0 && history[at - 1] == span {
            history
        } else {
            history.insert(at, span)
        },
    decreases history.len() - at,
{
    if at < history.len() {
        lemma_inserted_at(history.drop_last(), span, at);
    }
}

/// A period that ends after its start, inserted into a history of such
/// periods, leaves a history of such periods.
pub proof fn lemma_inserted_well_formed(history: Seq<Span>, span: Span)
    requires
        all_well_formed(history),
        span.is_well_formed(),
    ensures
        all_well_formed(inserted(history, span)),
    decreases history.len(),
{
    let after = inserted(history, span);
    if history.len() > 0 && !history.last().is_before(span) && history.last() != span {
        let rest = history.drop_last();
        assert forall|i: int| 0 <= i < rest.len() implies (#[trigger] rest[i]).is_well_formed() by {
            assert(rest[i] == history[i]);
        }
        lemma_inserted_well_formed(rest, span);
        assert forall|i: int| 0 <= i < after.len() implies (#[trigger] after[i]).is_well_formed() by {
            if i == after.len() - 1 {
                assert(after[i] == history[history.len() - 1]);
            } else {
                assert(after[i] == inserted(rest, span)[i]);
            }
        }
    } else {
        assert forall|i: int| 0 <= i < after.len() implies (#[trigger] after[i]).is_well_formed() by {
            if i < history.len() {
                assert(after[i] == history[i]);
            }
        }
    }
}

/// Insertion keeps the order, and adds the period to what the history holds
/// and nothing else.
pub proof fn law_inserted(history: Seq<Span>, span: Span)
    requires
        is_ascending(history),
    ensures
        is_ascending(inserted(history, span)),
        inserted(history, span).to_set() == history.to_set().insert(span),
    decreases history.len(),
{
    let after = inserted(history, span);
    if history.len() == 0 {
        assert(after.to_set() =~= history.to_set().insert(span)) by {
            assert(after[0] == span);
        }
    } else if history.last().is_before(span) {
        assert forall|i: int, j: int| 0 <= i < j < after.len() implies after[i].is_before(
            after[j],
        ) by {
            if j == history.len() && i < history.len() - 1 {
                assert(history[i].is_before(history.last()));
            }
        }
        assert(after.to_set() =~= history.to_set().insert(span)) by {
            assert(after.last() == span);
            assert forall|x: Span| history.contains(x) implies after.contains(x) by {
                let i = choose|i: int| 0 <= i < history.len() && history[i] == x;
                assert(after[i] == x);
            }
            assert forall|x: Span| after.contains(x) implies history.contains(x) || x
                == span by {
                let i = choose|i: int| 0 <= i < after.len() && after[i] == x;
                if i < history.len() {
                    assert(history[i] == x);
                }
            }
        }
    } else if history.last() == span {
        assert(after.to_set() =~= history.to_set().insert(span)) by {
            assert(history[history.len() - 1] == span);
        }
    } else {
        let last = history.last();
        let rest = history.drop_last();
        let inner = inserted(rest, span);
        assert(is_ascending(rest));
        law_inserted(rest, span);
        assert(span.is_before(last));
        assert forall|i: int, j: int| 0 <= i < j < after.len() implies after[i].is_before(
            after[j],
        ) by {
            if j == inner.len() {
                assert(inner.contains(inner[i]));
                assert(inner.to_set().contains(inner[i]));
                if inner[i] != span {
                    assert(rest.to_set().contains(inner[i]));
                    let k = choose|k: int| 0 <= k < rest.len() && rest[k] == inner[i];
                    assert(history[k].is_before(history[history.len() - 1]));
                }
            } else {
                assert(inner[i].is_before(inner[j]));
            }
        }
        assert(after.to_set() =~= history.to_set().insert(span)) by {
            assert forall|x: Span| after.contains(x) implies history.contains(x) || x
                == span by {
                let i = choose|i: int| 0 <= i < after.len() && after[i] == x;
                if i < inner.len() {
                    assert(inner.contains(x));
                    assert(inner.to_set().contains(x));
                    if x != span {
                        assert(rest.to_set().contains(x));
                        let k = choose|k: int| 0 <= k < rest.len() && rest[k] == x;
                        assert(history[k] == x);
                    }
                } else {
                    assert(history[history.len() - 1] == x);
                }
            }
            assert forall|x: Span| history.contains(x) || x == span implies after.contains(
                x,
            ) by {
                if x == span {
                    assert(rest.to_set().insert(span).contains(span));
                    assert(inner.to_set().contains(span));
                    let k = choose|k: int| 0 <= k < inner.len() && inner[k] == x;
                    assert(after[k] == x);
                } else {
                    let i = choose|i: int| 0 <= i < history.len() && history[i] == x;
                    if i < rest.len() {
                        assert(rest[i] == x);
                        assert(rest.contains(x));
                        assert(rest.to_set().insert(span).contains(x));
                        assert(inner.to_set().contains(x));
                        let k = choose|k: int| 0 <= k < inner.len() && inner[k] == x;
                        assert(after[k] == x);
                    } else {
                        assert(after[after.len() - 1] == x);
                    }
                }
            }
        }
    }
}

/// The canonical text of a period of plain bounds is a line of its own: it
/// holds no line feed and is trimmed already.
pub proof fn lemma_line_is_plain(span: Span)
    requires
        is_plain(stamp(span.start)),
        is_plain(stamp(span.end)),
    ensures
        !span.line().contains('\n'),
        trim(span.line()) == span.line(),
        span.line().len() > 0,
{
    let line = span.line();
    let head = stamp(span.start);
    let tail = stamp(span.end);
    lemma_plain_has_no_hyphen(head);
    lemma_plain_has_no_hyphen(tail);
    assert forall|i: int| 0 <= i < line.len() implies line[i] != '\n' by {
        if i < head.len() {
            assert(line[i] == head[i]);
        } else if i > head.len() {
            assert(line[i] == tail[i - head.len() - 1]);
        }
    }
    assert(line.first() == head.first());
    assert(line.last() == tail.last());
    lemma_trim_keeps(line);
}

/// The canonical text of a time is a line of its own, and no period: it
/// holds no line feed, is trimmed already, and has no two fields that both
/// spell a time.
pub proof fn lemma_stamp_is_a_line(secs: int)
    requires
        is_canonical(secs),
    ensures
        !stamp(secs).contains('\n'),
        trim(stamp(secs)) == stamp(secs),
        stamp(secs).len() > 0,
        span_read(stamp(secs)) is None,
{
    let line = stamp(secs);
    if secs >= YEAR_ZERO_SECS {
        lemma_plain_has_no_hyphen(line);
        lemma_trim_keeps(line);
        lemma_split_whole(line, '-');
    } else {
        let none = Seq::<char>::empty();
        let rest = line.skip(1);
        lemma_plain_has_no_hyphen(rest);
        assert(line =~= none.push('-') + rest);
        assert forall|i: int| 0 <= i < line.len() implies line[i] != '\n' by {
            if i > 0 {
                assert(line[i] == rest[i - 1]);
            }
        }
        assert(line.last() == rest.last());
        lemma_trim_keeps(line);
        lemma_split_pair(none, rest, '-');
    }
}

/// The text of a history of plain lines splits into those lines and an
/// empty one after the last line feed.
pub proof fn lemma_history_text_splits(history: Seq<Span>)
    requires
        forall|i: int| 0 <= i < history.len() ==> !(#[trigger] history[i]).line().contains('\n'),
    ensures
        split(history_text(history), '\n') == history_lines(history).push(Seq::empty()),
    decreases history.len(),
{
    let none = Seq::<char>::empty();
    if history.len() == 0 {
        assert(history_lines(history).push(none) =~= seq![none]);
    } else {
        let rest = history.drop_last();
        let line = history.last().line();
        let above = history_text(rest);
        assert forall|i: int| 0 <= i < rest.len() implies !(#[trigger] rest[i]).line().contains(
            '\n',
        ) by {
            assert(rest[i] == history[i]);
        }
        lemma_history_text_splits(rest);
        lemma_split_extend(above, line, '\n');
        lemma_split_separator(above + line, '\n');
        assert(history_text(history) =~= (above + line).push('\n'));
        assert(none + line =~= line);
        assert(history_lines(rest).push(none).drop_last() =~= history_lines(rest));
        assert(history_lines(rest).push(line) =~= history_lines(history));
    }
}

/// The lines of an ascending history read back as that history.
pub proof fn lemma_history_lines_read(history: Seq<Span>)
    requires
        is_ascending(history),
        all_well_formed(history),
        all_canonical(history),
        all_since_year_zero(history),
    ensures
        lines_read(history_lines(history)) == Some(LedgerView { history, current: None }),
    decreases history.len(),
{
    if history.len() == 0 {
        assert(history =~= Seq::<Span>::empty());
    } else {
        let rest = history.drop_last();
        let last = history.last();
        assert(history_lines(history).drop_last() =~= history_lines(rest));
        assert(history_lines(history).last() == last.line());
        assert forall|i: int| 0 <= i < rest.len() implies (#[trigger] rest[i]).is_canonical()
            && rest[i].is_since_year_zero() && rest[i].is_well_formed() by {
            assert(rest[i] == history[i]);
        }
        assert forall|i: int, j: int| 0 <= i < j < rest.len() implies rest[i].is_before(
            rest[j],
        ) by {
            assert(history[i].is_before(history[j]));
        }
        lemma_history_lines_read(rest);
        assert(history[history.len() - 1] == last);
        law_line_reads_back(last);
        lemma_line_is_plain(last);
        if rest.len() > 0 {
            assert(history[rest.len() - 1].is_before(history[history.len() - 1]));
        }
        assert(inserted(rest, last) =~= history);
    }
}

/// What a ledger writes to its file reads back as the same ledger: the same
/// history and the same running session. The history is that of a ledger:
/// in ascending order, of periods that end after they start. The law rests
/// on what the calendar says of every time that it writes. The history must
/// not reach back before the year 0: the text of an earlier time begins with a hyphen, which is also
/// what parts the two bounds of a period.
pub proof fn law_text_reads_back(ledger: LedgerView)
    requires
        is_ascending(ledger.history),
        all_well_formed(ledger.history),
        ledger.is_canonical(),
        ledger.is_since_year_zero(),
    ensures
        ledger_read(ledger.text()) == Some(ledger),
{
    let none = Seq::<char>::empty();
    let history = ledger.history;
    let above = history_text(history);
    let lines = history_lines(history);
    assert forall|i: int| 0 <= i < history.len() implies !(#[trigger] history[i]).line().contains(
        '\n',
    ) by {
        lemma_line_is_plain(history[i]);
    }
    lemma_history_text_splits(history);
    lemma_history_lines_read(history);
    let idle = LedgerView { history, current: None };
    assert(lines.push(none).drop_last() =~= lines);
    match ledger.current {
        None => {
            assert(ledger.text() =~= above);
            assert(idle.with_line(none) == Some(idle));
        },
        Some(start) => {
            let line = stamp(start);
            lemma_stamp_is_a_line(start);
            lemma_split_extend(above, line, '\n');
            lemma_split_separator(above + line, '\n');
            assert(ledger.text() =~= (above + line).push('\n'));
            assert(none + line =~= line);
            let read = lines.push(line).push(none);
            assert(split(ledger.text(), '\n') =~= read);
            assert(read.drop_last() =~= lines.push(line));
            assert(lines.push(line).drop_last() =~= lines);
            assert(idle.with_line(line) == Some(ledger));
            assert(lines_read(lines.push(line)) == Some(ledger));
            assert(ledger.with_line(none) == Some(ledger));
        },
    }
}

/// Whatever the order of the lines of a file, the history that is read from
/// them stands in ascending order, holds no period twice, and holds only
/// periods that end after they start.
pub proof fn law_read_is_ascending(lines: Seq<Seq<char>>)
    ensures
        lines_read(lines) matches Some(ledger) ==> is_ascending(ledger.history)
            && all_well_formed(ledger.history),
    decreases lines.len(),
{
    if lines.len() > 0 {
        law_read_is_ascending(lines.drop_last());
        if let Some(above) = lines_read(lines.drop_last()) {
            let entry = trim(lines.last());
            if entry.len() > 0 && span_read(entry) is Some {
                law_inserted(above.history, span_read(entry)->0);
                lemma_inserted_well_formed(above.history, span_read(entry)->0);
            }
        }
    }
}

/// Starting twice in a row fails the second time, and leaves the history and
/// the first start as they were.
pub proof fn law_start_twice(ledger: LedgerView, first: int, second: int)
    requires
        ledger.started(first) is Some,
    ensures
        ledger.started(first)->0.started(second) is None,
        ledger.started(first)->0.history == ledger.history,
        ledger.started(first)->0.current == Some(first),
{
}

/// True of a line that opens no session: it is empty, or spells a period.
pub open spec fn is_closed_line(line: Seq<char>) -> bool {
    trim(line).len() == 0 || span_read(trim(line)) is Some
}

/// A file whose lines open no session loads as a ledger without a running
/// session, and such a ledger cannot be stopped.
pub proof fn law_closed_file_is_idle(lines: Seq<Seq<char>>, now: int)
    requires
        forall|i: int| 0 <= i < lines.len() ==> is_closed_line(#[trigger] lines[i]),
    ensures
        lines_read(lines) is Some,
        lines_read(lines)->0.current is None,
        lines_read(lines)->0.stopped(now) is None,
    decreases lines.len(),
{
    if lines.len() > 0 {
        let rest = lines.drop_last();
        assert forall|i: int| 0 <= i < rest.len() implies is_closed_line(#[trigger] rest[i]) by {
            assert(rest[i] == lines[i]);
        }
        law_closed_file_is_idle(rest, now);
        assert(is_closed_line(lines[lines.len() - 1]));
    }
}

/// The record of all sessions.
#[derive(Debug, PartialEq, Eq)]
pub struct Ledger {
    pub(crate) history: Vec<Session>,
    pub(crate) current: Option<Timestamp>,
}

impl View for Ledger {
    type V = LedgerView;

    open(crate) spec fn view(&self) -> LedgerView {
        LedgerView {
            history: spans(self.history@),
            current: start_of(self.current),
        }
    }
}

/// Puts `session` at its place in `history`, unless it is there already.
fn insert(history: &mut Vec<Session>, session: Session)
    requires
        is_ascending(spans(old(history)@)),
        all_well_formed(spans(old(history)@)),
        session@.is_well_formed(),
    ensures
        spans(final(history)@) == inserted(spans(old(history)@), session@),
        is_ascending(spans(final(history)@)),
        all_well_formed(spans(final(history)@)),
{
    let ghost before = spans(history@);
    let mut at: usize = history.len();
    while at > 0 && session.is_before(&history[at - 1])
        invariant
            at <= history.len(),
            history@ == old(history)@,
            before == spans(history@),
            forall|j: int| at <= j < before.len() ==> session@.is_before(#[trigger] before[j]),
        decreases at,
    {
        at -= 1;
    }
    proof {
        lemma_inserted_at(before, session@, at as int);
        law_inserted(before, session@);
        lemma_inserted_well_formed(before, session@);
    }
    if at > 0 && history[at - 1] == session {
        return ;
    }
    history.insert(at, session);
    assert(spans(history@) =~= before.insert(at as int, session@));
}

impl Ledger {
    #[verifier::type_invariant]
    pub(crate) open spec fn in_order(self) -> bool {
        is_ascending(spans(self.history@)) && all_well_formed(spans(self.history@))
    }

    /// The ledger that holds no session.
    pub fn new() -> (r: Ledger)
        ensures
            r@ == LedgerView::empty(),
    {
        let r = Ledger { history: Vec::new(), current: None };
        assert(spans(r.history@) =~= Seq::<Span>::empty());
        r
    }

    /// The sessions that are over, in ascending order. Each ends after it
    /// starts.
    pub fn history(&self) -> (r: &Vec<Session>)
        ensures
            spans(r@) == self@.history,
            is_ascending(self@.history),
            all_well_formed(self@.history),
    {
        proof {
            use_type_invariant(self);
        }
        &self.history
    }

    /// The start of the running session, if one is running.
    pub fn current(&self) -> (r: Option<Timestamp>)
        ensures
            r is Some <==> self@.current is Some,
            r matches Some(start) ==> self@.current == Some(start@),
    {
        self.current
    }

    /// The ledger that the text of a file holds. The text is read line by
    /// line; white space around a line does not count, and an empty line is
    /// passed over. A line that spells a period, one that ends after it
    /// starts, adds it to the history. Any other line must spell a time, which is then the start of the running
    /// session; of several such lines the last one counts. A line that is
    /// neither is an error, and nothing is loaded.
    pub fn load(content: &str) -> (r: Result<Ledger, Error>)
        ensures
            r matches Ok(ledger) ==> ledger_read(content@) == Some(ledger@),
            r matches Err(e) ==> ledger_read(content@) is None && e is ChronoParse,
    {
        let chars = chars_of(content);
        let lines = split_at(&chars, '\n');
        let mut history: Vec<Session> = Vec::new();
        let mut current: Option<Timestamp> = None;
        let mut i: usize = 0;
        assert(spans(history@) =~= Seq::<Span>::empty());
        while i < lines.len()
            invariant
                i <= lines.len(),
                texts(lines@) == split(content@, '\n'),
                is_ascending(spans(history@)),
                all_well_formed(spans(history@)),
                lines_read(texts(lines@).take(i as int)) == Some(
                    LedgerView { history: spans(history@), current: start_of(current) },
                ),
            decreases lines.len() - i,
        {
            proof {
                assert(texts(lines@).take(i + 1).drop_last() =~= texts(lines@).take(i as int));
            }
            let entry = trimmed(&lines[i]);
            if entry.len() > 0 {
                match Session::read(&entry) {
                    Ok(session) => {
                        insert(&mut history, session);
                    },
                    Err(_) => {
                        let text = string_of(&entry);
                        match Timestamp::parse(text.as_str()) {
                            Ok(start) => {
                                current = Some(start);
                            },
                            Err(e) => {
                                proof {
                                    lemma_lines_read_stops(texts(lines@), i + 1);
                                }
                                return Err(e);
                            },
                        }
                    },
                }
            }
            i += 1;
        }
        assert(texts(lines@).take(i as int) =~= texts(lines@));
        Ok(Ledger { history, current })
    }

    /// The text of the ledger's file, which replaces what the file held: a
    /// line for each session of the history, in ascending order, and a last
    /// line with the start of the running session, if one is running. Where
    /// the history does not reach back before the year 0, `load` reads the
    /// text back as this ledger.
    pub fn persist(&self) -> (text: String)
        ensures
            text@ == self@.text(),
            self@.is_since_year_zero() ==> ledger_read(text@) == Some(self@),
    {
        proof {
            use_type_invariant(self);
        }
        let mut buf: Vec<char> = Vec::new();
        let mut i: usize = 0;
        while i < self.history.len()
            invariant
                i <= self.history.len(),
                buf@ == history_text(spans(self.history@).take(i as int)),
                all_canonical(spans(self.history@).take(i as int)),
            decreases self.history.len() - i,
        {
            proof {
                let all = spans(self.history@);
                assert(all.take(i + 1).drop_last() =~= all.take(i as int));
            }
            self.history[i].push_line(&mut buf);
            buf.push('\n');
            i += 1;
        }
        assert(spans(self.history@).take(i as int) =~= spans(self.history@));
        if let Some(start) = self.current {
            let line = start.format(DATETIME_FMT);
            append(&mut buf, &line);
            buf.push('\n');
        }
        proof {
            if self@.is_since_year_zero() {
                law_text_reads_back(self@);
            }
        }
        string_of(&buf)
    }

    /// The text that shows the ledger: the history, and whether a session is
    /// running.
    pub fn to_string(&self) -> (text: String)
        ensures
            text@ == self@.report(),
    {
        let mut buf: Vec<char> = Vec::new();
        append_str(&mut buf, "HISTORY:\n");
        let ghost head = buf@;
        let mut i: usize = 0;
        while i < self.history.len()
            invariant
                i <= self.history.len(),
                head == "HISTORY:\n"@,
                buf@ == head + history_report(spans(self.history@).take(i as int)),
            decreases self.history.len() - i,
        {
            proof {
                let all = spans(self.history@);
                assert(all.take(i + 1).drop_last() =~= all.take(i as int));
            }
            append_str(&mut buf, "  ");
            self.history[i].push_text(&mut buf);
            buf.push('\n');
            i += 1;
        }
        assert(spans(self.history@).take(i as int) =~= spans(self.history@));
        match self.current {
            Some(start) => {
                append_str(&mut buf, "SESSION ACTIVE SINCE ");
                let since = start.format(PLAIN_FMT);
                append(&mut buf, &since);
            },
            None => {
                append_str(&mut buf, "NO ACTIVE SESSION");
            },
        }
        string_of(&buf)
    }

    /// Starts a session at `now`, unless one is running.
    pub fn start_at(&mut self, now: Timestamp) -> (r: Result<(), Error>)
        ensures
            old(self)@.started(now@) matches Some(after) ==> (r is Ok && final(self)@ == after),
            old(self)@.current matches Some(since) ==> (r matches Err(
                Error::SessionRunning(start),
            ) && start@ == since && final(self)@ == old(self)@),
    {
        if let Some(start) = self.current {
            return Err(Error::SessionRunning(start));
        }
        proof {
            use_type_invariant(&*self);
        }
        self.current = Some(now);
        Ok(())
    }

    /// Starts a session now, unless one is running.
    pub fn start(&mut self) -> (r: Result<(), Error>)
        ensures
            old(self)@.current is None ==> (r is Ok && final(self)@.current is Some
                && final(self)@.history == old(self)@.history),
            old(self)@.current matches Some(since) ==> (r matches Err(
                Error::SessionRunning(start),
            ) && start@ == since && final(self)@ == old(self)@),
    {
        if let Some(start) = self.current {
            return Err(Error::SessionRunning(start));
        }
        self.start_at(Timestamp::now())
    }

    /// Stops the running session at `now`: it joins the history, and its
    /// length is returned. Fails where no session is running, and where `now`
    /// is not after its start.
    pub fn stop_at(&mut self, now: Timestamp) -> (r: Result<Duration, Error>)
        ensures
            old(self)@.stopped(now@) matches Some(after) ==> (r matches Ok(length) && length@
                == now@ - old(self)@.current->0 && final(self)@ == after),
            old(self)@.stopped(now@) is None ==> (r is Err && final(self)@ == old(self)@),
            old(self)@.current is None ==> (r matches Err(e) && e is NoSessionRunning),
            old(self)@.current matches Some(since) && since >= now@ ==> (r matches Err(e) && e
                is ClockSkew),
    {
        proof {
            use_type_invariant(&*self);
        }
        match self.current {
            None => Err(Error::NoSessionRunning),
            Some(start) => {
                match Session::between(start, now) {
                    Err(e) => Err(e),
                    Ok(session) => {
                        let mut history: Vec<Session> = Vec::new();
                        std::mem::swap(&mut self.history, &mut history);
                        insert(&mut history, session);
                        std::mem::swap(&mut self.history, &mut history);
                        self.current = None;
                        Ok(session.duration())
                    },
                }
            },
        }
    }

    /// Stops the running session now. It fails with `NoSessionRunning` where
    /// no session runs, and only there. Where one runs the clock decides:
    /// either it is past the start and the session joins the history with
    /// its positive length, or it is not, and nothing changes.
    pub fn stop(&mut self) -> (r: Result<Duration, Error>)
        ensures
            old(self)@.current is None <==> (r matches Err(e) && e is NoSessionRunning),
            r matches Ok(length) ==> (length@ > 0 && old(self)@.stopped(
                old(self)@.current->0 + length@,
            ) == Some(final(self)@)),
            r matches Err(e) ==> ((e is NoSessionRunning || e is ClockSkew) && final(self)@
                == old(self)@),
    {
        if self.current.is_none() {
            return Err(Error::NoSessionRunning);
        }
        self.stop_at(Timestamp::now())
    }
}

} // verus!
