//! One completed work period.

use crate::calendar::{datetime_text, is_plain, is_stamp_char, YEAR_ZERO_SECS};
use crate::error::Error;
use crate::format::{duration_text, push_duration, DATETIME_FMT, TIME_FMT};
use crate::text::{
    append, append_str, chars_of, lemma_split_nonempty, lemma_split_pair, split, split_at,
    string_of, texts,
};
use crate::time::{is_canonical, stamp, stamp_read, Duration, Timestamp, MAX_SPAN_SECS};
use std::str::FromStr;
use vstd::prelude::*;

verus! {

/// The bounds of a work period on the timeline, in seconds.
pub struct Span {
    pub start: int,
    pub end: int,
}

impl Span {
    /// A period has a positive length: it ends after it starts.
    pub open spec fn is_well_formed(self) -> bool {
        self.start < self.end
    }

    /// The length of a period; negative where it ends before it starts.
    pub open spec fn duration(self) -> int {
        self.end - self.start
    }

    /// The order of periods: by start, then by end.
    pub open spec fn is_before(self, other: Span) -> bool {
        self.start < other.start || (self.start == other.start && self.end < other.end)
    }

    /// True where the calendar reads the text of each bound back as that
    /// bound, and writes it plainly from the year 0 on.
    pub open spec fn is_canonical(self) -> bool {
        is_canonical(self.start) && is_canonical(self.end)
    }

    /// True of a period that does not start or end before the year 0.
    pub open spec fn is_since_year_zero(self) -> bool {
        self.start >= YEAR_ZERO_SECS && self.end >= YEAR_ZERO_SECS
    }

    /// The canonical text of a period: the texts of its two bounds with a
    /// hyphen between them.
    pub open spec fn line(self) -> Seq<char> {
        stamp(self.start).push('-') + stamp(self.end)
    }

    /// The text that shows a period: its start, its length, and the time of
    /// day at which it ended.
    pub open spec fn text(self) -> Seq<char> {
        stamp(self.start) + " -- "@ + duration_text(self.duration()) + " --> "@ + datetime_text(
            self.end,
            TIME_FMT@,
        )
    }
}

/// The time that one field of a period spells. An empty field spells none.
pub open spec fn field_read(field: Seq<char>) -> Option<int> {
    if field.len() == 0 {
        None
    } else {
        stamp_read(field)
    }
}

/// The period that `text` spells: exactly two fields with a hyphen between
/// them, each the text of a time, the second time after the first.
pub open spec fn span_read(text: Seq<char>) -> Option<Span> {
    let fields = split(text, '-');
    if fields.len() == 2 && field_read(fields[0]) is Some && field_read(fields[1]) is Some
        && field_read(fields[0])->0 < field_read(fields[1])->0 {
        Some(Span { start: field_read(fields[0])->0, end: field_read(fields[1])->0 })
    } else {
        None
    }
}

/// True of a text of two fields that spell two times, the second of which is
/// not after the first.
pub open spec fn is_backwards(text: Seq<char>) -> bool {
    let fields = split(text, '-');
    fields.len() == 2 && field_read(fields[0]) is Some && field_read(fields[1]) is Some
        && field_read(fields[0])->0 >= field_read(fields[1])->0
}

/// Plain text holds no hyphen.
pub proof fn lemma_plain_has_no_hyphen(text: Seq<char>)
    requires
        is_plain(text),
    ensures
        !text.contains('-'),
        !text.contains('\n'),
{
    assert forall|i: int| 0 <= i < text.len() implies text[i] != '-' && text[i] != '\n' by {
        assert(is_stamp_char(text[i]));
    }
}

/// The canonical text of a period reads back as that period, where the text
/// of each bound is plain and reads back as that bound. The year 0 is the
/// limit: the text of an earlier time begins with a hyphen.
pub proof fn law_line_reads_back(span: Span)
    requires
        span.is_well_formed(),
        span.is_canonical(),
        span.is_since_year_zero(),
    ensures
        span_read(span.line()) == Some(span),
{
    lemma_plain_has_no_hyphen(stamp(span.start));
    lemma_plain_has_no_hyphen(stamp(span.end));
    lemma_split_pair(stamp(span.start), stamp(span.end), '-');
}

/// One completed work period: the time it started and the time it ended.
#[derive(Debug, Clone, Copy, PartialEq, Eq, PartialOrd, Ord, Structural)]
pub struct Session {
    pub(crate) start: Timestamp,
    pub(crate) end: Timestamp,
}

impl View for Session {
    type V = Span;

    open(crate) spec fn view(&self) -> Span {
        Span { start: self.start@, end: self.end@ }
    }
}

impl Session {
    /// The period from `start` to `end`, whatever their order.
    pub fn new(start: Timestamp, end: Timestamp) -> (r: Session)
        ensures
            r@ == (Span { start: start@, end: end@ }),
    {
        Session { start, end }
    }

    /// The session that started at `start` and ends at `end`. A session has
    /// a positive length: an `end` that is not after `start` is refused.
    pub fn between(start: Timestamp, end: Timestamp) -> (r: Result<Session, Error>)
        ensures
            start@ < end@ ==> (r matches Ok(s) && s@ == (Span { start: start@, end: end@ })),
            start@ >= end@ ==> (r matches Err(e) && e is ClockSkew),
    {
        if start.secs() < end.secs() {
            Ok(Session { start, end })
        } else {
            Err(Error::ClockSkew)
        }
    }

    /// The session that started at `start` and ends now. Whatever the clock
    /// says, a session that comes back has a positive length.
    pub fn with_start(start: Timestamp) -> (r: Result<Session, Error>)
        ensures
            r matches Ok(s) ==> s@.start == start@ && s@.end > s@.start && s@.duration() > 0,
            r matches Err(e) ==> e is ClockSkew,
    {
        Session::between(start, Timestamp::now())
    }

    /// The length of the session: its end less its start.
    pub fn duration(&self) -> (r: Duration)
        ensures
            r@ == self@.duration(),
            -MAX_SPAN_SECS <= r@ <= MAX_SPAN_SECS,
    {
        Duration::between(&self.start, &self.end)
    }

    /// The time at which the session started.
    pub fn start(&self) -> (r: &Timestamp)
        ensures
            r@ == self@.start,
    {
        &self.start
    }

    /// The time at which the session ended.
    pub fn end(&self) -> (r: &Timestamp)
        ensures
            r@ == self@.end,
    {
        &self.end
    }

    /// True of a session that ends after it starts.
    pub fn is_well_formed(&self) -> (r: bool)
        ensures
            r == self@.is_well_formed(),
    {
        self.start.secs() < self.end.secs()
    }

    /// True where this session comes before `other`: it starts earlier, or
    /// starts at the same time and ends earlier.
    pub fn is_before(&self, other: &Session) -> (r: bool)
        ensures
            r == self@.is_before(other@),
    {
        self.start.secs() < other.start.secs() || (self.start.secs() == other.start.secs()
            && self.end.secs() < other.end.secs())
    }

    /// Appends the canonical text of this session to `buf`.
    pub(crate) fn push_line(&self, buf: &mut Vec<char>)
        ensures
            final(buf)@ == old(buf)@ + self@.line(),
            self@.is_canonical(),
    {
        let start = self.start.format(DATETIME_FMT);
        let end = self.end.format(DATETIME_FMT);
        append(buf, &start);
        buf.push('-');
        append(buf, &end);
    }

    /// The canonical text of this session. The text of a session that ends
    /// after its start, and does not reach back before the year 0, reads back
    /// as this session.
    pub fn to_line(&self) -> (text: String)
        ensures
            text@ == self@.line(),
            self@.is_well_formed() && self@.is_since_year_zero() ==> span_read(text@) == Some(
                self@,
            ),
    {
        let mut buf: Vec<char> = Vec::new();
        self.push_line(&mut buf);
        proof {
            if self@.is_well_formed() && self@.is_since_year_zero() {
                law_line_reads_back(self@);
            }
        }
        string_of(&buf)
    }

    /// Appends to `buf` the text that shows this session.
    pub(crate) fn push_text(&self, buf: &mut Vec<char>)
        ensures
            final(buf)@ == old(buf)@ + self@.text(),
    {
        let start = self.start.format(DATETIME_FMT);
        let end = self.end.format(TIME_FMT);
        let length = self.duration();
        append(buf, &start);
        append_str(buf, " -- ");
        push_duration(buf, &length);
        append_str(buf, " --> ");
        append(buf, &end);
    }

    /// The text that shows this session.
    pub fn to_string(&self) -> (text: String)
        ensures
            text@ == self@.text(),
    {
        let mut buf: Vec<char> = Vec::new();
        self.push_text(&mut buf);
        string_of(&buf)
    }

    /// The time that the characters of one field spell.
    fn read_field(field: &Vec<char>, line: &Vec<char>) -> (r: Result<Timestamp, Error>)
        ensures
            r matches Ok(time) ==> field_read(field@) == Some(time@),
            r matches Err(e) ==> field_read(field@) is None && (e is ChronoParse || e
                is NotASession) && (e is ChronoParse <==> stamp_read(field@) is None) && (e
                matches Error::NotASession(given) ==> given@ == line@),
    {
        let text = string_of(field);
        match Timestamp::parse(text.as_str()) {
            Ok(time) => if field.len() == 0 {
                Err(Error::NotASession(string_of(line)))
            } else {
                Ok(time)
            },
            Err(e) => Err(e),
        }
    }

    /// The session that the characters `line` spell.
    pub(crate) fn read(line: &Vec<char>) -> (r: Result<Session, Error>)
        ensures
            r matches Ok(s) ==> span_read(line@) == Some(s@),
            r matches Err(e) ==> {
                let fields = split(line@, '-');
                &&& span_read(line@) is None
                &&& e is ChronoParse || e is NotASession || e is ClockSkew
                &&& e is ChronoParse <==> stamp_read(fields[0]) is None || (field_read(fields[0])
                    is Some && fields.len() >= 2 && stamp_read(fields[1]) is None)
                &&& e is ClockSkew <==> is_backwards(line@)
                &&& e matches Error::NotASession(given) ==> given@ == line@
            },
    {
        let fields = split_at(line, '-');
        proof {
            lemma_split_nonempty(line@, '-');
        }
        let start = match Session::read_field(&fields[0], line) {
            Ok(start) => start,
            Err(e) => {
                return Err(e);
            },
        };
        if fields.len() < 2 {
            return Err(Error::NotASession(string_of(line)));
        }
        let end = match Session::read_field(&fields[1], line) {
            Ok(end) => end,
            Err(e) => {
                return Err(e);
            },
        };
        if fields.len() > 2 {
            return Err(Error::NotASession(string_of(line)));
        }
        Session::between(start, end)
    }

    /// The session that `text` spells in the canonical way: the text of its
    /// start, a hyphen, the text of its end, which must be after its start.
    /// The fields are read from the left: what the calendar refuses in a
    /// field is reported before a missing or a third field that shows later,
    /// and an end that is not after the start is reported last.
    pub fn parse(text: &str) -> (r: Result<Session, Error>)
        ensures
            r matches Ok(s) ==> span_read(text@) == Some(s@),
            r matches Err(e) ==> {
                let fields = split(text@, '-');
                &&& span_read(text@) is None
                &&& e is ChronoParse || e is NotASession || e is ClockSkew
                &&& e is ChronoParse <==> stamp_read(fields[0]) is None || (field_read(fields[0])
                    is Some && fields.len() >= 2 && stamp_read(fields[1]) is None)
                &&& e is ClockSkew <==> is_backwards(text@)
                &&& e matches Error::NotASession(given) ==> given@ == text@
            },
    {
        let line = chars_of(text);
        Session::read(&line)
    }
}

impl FromStr for Session {
    type Err = Error;

    /// The session that `text` spells in the canonical way, as `parse`
    /// reads it.
    fn from_str(text: &str) -> (r: Result<Session, Error>)
        ensures
            r matches Ok(s) ==> span_read(text@) == Some(s@),
            r matches Err(e) ==> {
                let fields = split(text@, '-');
                &&& span_read(text@) is None
                &&& e is ChronoParse || e is NotASession || e is ClockSkew
                &&& e is ChronoParse <==> stamp_read(fields[0]) is None || (field_read(fields[0])
                    is Some && fields.len() >= 2 && stamp_read(fields[1]) is None)
                &&& e is ClockSkew <==> is_backwards(text@)
                &&& e matches Error::NotASession(given) ==> given@ == text@
            },
    {
        Session::parse(text)
    }
}

} // verus!
