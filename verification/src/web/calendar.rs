//! The mirrored iCalendar calendars: turning a calendar into the list of
//! coming events, and the cache that keeps each calendar for four hours.
use vstd::prelude::*;
use vstd::string::StringExecFns;

use crate::instant::{spec_before, Instant};
use crate::text::chars_of;
use super::Error;
use chrono::Datelike;
use icalendar::{Calendar, CalendarComponent, Component, DatePerhapsTime, EventLike};

verus! {

#[verifier::external_type_specification]
#[verifier::external_body]
pub struct ExCalendar(Calendar);

#[verifier::external_type_specification]
#[verifier::external_body]
pub struct ExCalendarComponent(CalendarComponent);

/// An event of a mirrored calendar, as the API hands it out.
#[derive(Debug)]
pub struct CalendarEvent {
    pub summary: Option<String>,
    pub location: Option<String>,
    pub description: Option<String>,
    pub start: Option<Instant>,
    pub end: Option<Instant>,
}

/// An event as read from a calendar: its texts and its start and end.
#[derive(Debug)]
pub struct EventRecord {
    pub summary: Option<String>,
    pub location: Option<String>,
    pub description: Option<String>,
    pub start: Option<Instant>,
    pub end: Option<Instant>,
}

/// An event as plain values.
pub struct CalendarEventView {
    pub summary: Option<Seq<char>>,
    pub location: Option<Seq<char>>,
    pub description: Option<Seq<char>>,
    pub start: Option<Instant>,
    pub end: Option<Instant>,
}

/// The view of an optional text.
pub open spec fn opt_text(s: Option<String>) -> Option<Seq<char>> {
    match s {
        Some(t) => Some(t@),
        None => None,
    }
}

impl View for CalendarEvent {
    type V = CalendarEventView;

    open spec fn view(&self) -> CalendarEventView {
        CalendarEventView {
            summary: opt_text(self.summary),
            location: opt_text(self.location),
            description: opt_text(self.description),
            start: self.start,
            end: self.end,
        }
    }
}

impl View for EventRecord {
    type V = CalendarEventView;

    open spec fn view(&self) -> CalendarEventView {
        CalendarEventView {
            summary: opt_text(self.summary),
            location: opt_text(self.location),
            description: opt_text(self.description),
            start: self.start,
            end: self.end,
        }
    }
}

/// The views of a list of events.
pub open spec fn events_view(v: Seq<CalendarEvent>) -> Seq<CalendarEventView> {
    v.map_values(|e: CalendarEvent| e@)
}

/// The views of a list of read events.
pub open spec fn records_view(v: Seq<EventRecord>) -> Seq<CalendarEventView> {
    v.map_values(|e: EventRecord| e@)
}

/// `s` without its backslashes.
pub open spec fn without_backslashes(s: Seq<char>) -> Seq<char>
    decreases s.len(),
{
    if s.len() == 0 {
        s
    } else if s.last() == '\\' {
        without_backslashes(s.drop_last())
    } else {
        without_backslashes(s.drop_last()).push(s.last())
    }
}

/// Removes every backslash from `s`.
pub fn remove_backslashes(s: &str) -> (r: String)
    ensures
        r@ == without_backslashes(s@),
{
    let cs = chars_of(s);
    let mut r = String::new();
    for i in 0..cs.len()
        invariant
            cs@ == s@,
            r@ == without_backslashes(cs@.take(i as int)),
    {
        assert(cs@.take(i + 1).drop_last() == cs@.take(i as int));
        if cs[i] != '\\' {
            r.push(cs[i]);
        }
    }
    assert(cs@.take(cs@.len() as int) == cs@);
    r
}

/// The event handed out for a read event: the location loses its
/// backslashes; summary, description, start and end are the event's own.
pub open spec fn handed_out(e: CalendarEventView) -> CalendarEventView {
    CalendarEventView {
        summary: e.summary,
        location: match e.location {
            Some(l) => Some(without_backslashes(l)),
            None => None,
        },
        description: e.description,
        start: e.start,
        end: e.end,
    }
}

/// An event is handed out with its own summary, description, start and
/// end, and its location, where it has one, keeps every character but the
/// backslashes, in order.
pub proof fn lemma_handed_out_keeps_event(e: CalendarEventView)
    ensures
        handed_out(e).summary == e.summary,
        handed_out(e).description == e.description,
        handed_out(e).start == e.start,
        handed_out(e).end == e.end,
        match e.location {
            Some(l) => handed_out(e).location == Some(l.filter(|c: char| c != '\\')),
            None => handed_out(e).location is None,
        },
{
    if let Some(l) = e.location {
        lemma_without_backslashes_is_filter(l);
    }
}

/// Removing backslashes keeps every other character, in order.
pub proof fn lemma_without_backslashes_is_filter(s: Seq<char>)
    ensures
        without_backslashes(s) == s.filter(|c: char| c != '\\'),
    decreases s.len(),
{
    reveal_with_fuel(Seq::filter, 1);
    if s.len() > 0 {
        lemma_without_backslashes_is_filter(s.drop_last());
    }
    assert(without_backslashes(s) =~= s.filter(|c: char| c != '\\'));
}

/// The event has an end, and it lies after `now`.
pub open spec fn ends_after(e: CalendarEventView, now: Instant) -> bool {
    match e.end {
        Some(t) => spec_before(now, t),
        None => false,
    }
}

/// The read events that end after `now`, as they are handed out, in the
/// order read.
pub open spec fn spec_upcoming(records: Seq<CalendarEventView>, now: Instant) -> Seq<CalendarEventView>
    decreases records.len(),
{
    if records.len() == 0 {
        Seq::empty()
    } else {
        let r = spec_upcoming(records.drop_last(), now);
        if ends_after(records.last(), now) {
            r.push(handed_out(records.last()))
        } else {
            r
        }
    }
}

/// Events ordered by start: no start comes first, then starts in time
/// order.
pub open spec fn start_le(a: Option<Instant>, b: Option<Instant>) -> bool {
    match a {
        None => true,
        Some(x) => match b {
            None => false,
            Some(y) => !spec_before(y, x),
        },
    }
}

/// Inserts `e` after every trailing event that does not start later.
pub open spec fn insert_by_start(s: Seq<CalendarEventView>, e: CalendarEventView) -> Seq<CalendarEventView>
    decreases s.len(),
{
    if s.len() == 0 {
        seq![e]
    } else if start_le(s.last().start, e.start) {
        s.push(e)
    } else {
        insert_by_start(s.drop_last(), e).push(s.last())
    }
}

/// The events sorted by start, events with the same start keeping their
/// order (a stable sort).
pub open spec fn sort_by_start(s: Seq<CalendarEventView>) -> Seq<CalendarEventView>
    decreases s.len(),
{
    if s.len() == 0 {
        s
    } else {
        insert_by_start(sort_by_start(s.drop_last()), s.last())
    }
}

/// The list is ordered by start.
pub open spec fn sorted_by_start(s: Seq<CalendarEventView>) -> bool {
    forall|i: int, j: int| 0 <= i < j < s.len() ==> start_le(#[trigger] s[i].start, #[trigger] s[j].start)
}

/// Inserting where the scan from the back stops is `insert_by_start`.
proof fn lemma_insert_by_start_at(s: Seq<CalendarEventView>, e: CalendarEventView, j: int)
    requires
        0 <= j <= s.len(),
        j == 0 || start_le(s[j - 1].start, e.start),
        forall|k: int| j <= k < s.len() ==> !start_le(#[trigger] s[k].start, e.start),
    ensures
        insert_by_start(s, e) == s.insert(j, e),
    decreases s.len(),
{
    if s.len() == 0 {
        assert(s.insert(0, e) =~= seq![e]);
    } else if start_le(s.last().start, e.start) {
        assert(j == s.len());
        assert(s.insert(j, e) =~= s.push(e));
    } else {
        let d = s.drop_last();
        lemma_insert_by_start_at(d, e, j);
        assert(s.insert(j, e) =~= d.insert(j, e).push(s.last()));
    }
}

fn clone_text(s: &Option<String>) -> (r: Option<String>)
    ensures
        opt_text(r) == opt_text(*s),
{
    match s {
        Some(t) => Some(t.clone()),
        None => None,
    }
}

/// The event handed out for a read event.
fn hand_out(e: &EventRecord) -> (r: CalendarEvent)
    ensures
        r@ == handed_out(e@),
{
    CalendarEvent {
        summary: clone_text(&e.summary),
        location: match &e.location {
            Some(l) => Some(remove_backslashes(l.as_str())),
            None => None,
        },
        description: clone_text(&e.description),
        start: e.start,
        end: e.end,
    }
}

/// The events of a calendar that the API lists: those that end after
/// `now`, with locations freed of backslashes,
/// sorted by start (stable, an event without start first).
pub fn upcoming_events(records: &Vec<EventRecord>, now: Instant) -> (r: Vec<CalendarEvent>)
    ensures
        events_view(r@) == sort_by_start(spec_upcoming(records_view(records@), now)),
{
    let ghost rv = records_view(records@);
    let mut sorted: Vec<CalendarEvent> = Vec::new();
    let ghost mut picked: Seq<CalendarEventView> = Seq::empty();
    for i in 0..records.len()
        invariant
            rv == records_view(records@),
            picked == spec_upcoming(rv.take(i as int), now),
            events_view(sorted@) == sort_by_start(picked),
    {
        proof {
            assert(rv.take(i + 1).drop_last() == rv.take(i as int));
            assert(rv.take(i + 1).last() == records@[i as int]@);
        }
        let rec = &records[i];
        let keep = match rec.end {
            Some(t) => now.is_before(&t),
            None => false,
        };
        if keep {
            let e = hand_out(rec);
            let ghost ev = e@;
            let ghost before = events_view(sorted@);
            let mut j = sorted.len();
            while j > 0
                invariant
                    0 <= j <= sorted@.len(),
                    before == events_view(sorted@),
                    ev == e@,
                    forall|k: int| j <= k < before.len() ==> !start_le(#[trigger] before[k].start, ev.start),
                ensures
                    0 <= j <= sorted@.len(),
                    j == 0 || start_le(before[j - 1].start, ev.start),
                    forall|k: int| j <= k < before.len() ==> !start_le(#[trigger] before[k].start, ev.start),
                decreases j,
            {
                assert(before[j - 1] == sorted@[j - 1]@);
                let s = sorted[j - 1].start;
                let le = match s {
                    None => true,
                    Some(x) => match e.start {
                        None => false,
                        Some(y) => !y.is_before(&x),
                    },
                };
                if le {
                    break;
                }
                j = j - 1;
            }
            proof {
                if j > 0 {
                    assert(before[j - 1] == sorted@[j - 1]@);
                }
            }
            sorted.insert(j, e);
            proof {
                lemma_insert_by_start_at(before, ev, j as int);
                assert(events_view(sorted@) =~= before.insert(j as int, ev));
                picked = picked.push(ev);
                assert(picked.drop_last() == spec_upcoming(rv.take(i as int), now));
            }
        }
    }
    proof {
        assert(rv.take(rv.len() as int) == rv);
    }
    sorted
}


/// Where `insert_by_start` puts `e`.
pub open spec fn insert_pos(s: Seq<CalendarEventView>, e: CalendarEventView) -> int
    decreases s.len(),
{
    if s.len() == 0 {
        0
    } else if start_le(s.last().start, e.start) {
        s.len() as int
    } else {
        insert_pos(s.drop_last(), e)
    }
}

proof fn lemma_insert_pos(s: Seq<CalendarEventView>, e: CalendarEventView)
    ensures
        0 <= insert_pos(s, e) <= s.len(),
        insert_pos(s, e) == 0 || start_le(s[insert_pos(s, e) - 1].start, e.start),
        forall|k: int| insert_pos(s, e) <= k < s.len() ==> !start_le(#[trigger] s[k].start, e.start),
    decreases s.len(),
{
    if s.len() > 0 && !start_le(s.last().start, e.start) {
        let d = s.drop_last();
        lemma_insert_pos(d, e);
        assert forall|k: int| insert_pos(s, e) <= k < s.len() implies !start_le(#[trigger] s[k].start, e.start) by {
            if k < s.len() - 1 {
                assert(s[k] == d[k]);
            }
        }
    }
}

/// The order by start is a total preorder.
proof fn lemma_start_le_order(a: Option<Instant>, b: Option<Instant>, c: Option<Instant>)
    ensures
        start_le(a, a),
        start_le(a, b) || start_le(b, a),
        start_le(a, b) && start_le(b, c) ==> start_le(a, c),
{
}

/// Inserting into an ordered list keeps it ordered.
proof fn lemma_insert_by_start_sorted(s: Seq<CalendarEventView>, e: CalendarEventView)
    requires
        sorted_by_start(s),
    ensures
        sorted_by_start(insert_by_start(s, e)),
{
    lemma_insert_pos(s, e);
    let j = insert_pos(s, e);
    lemma_insert_by_start_at(s, e, j);
    let r = s.insert(j, e);
    assert forall|a: int, b: int| 0 <= a < b < r.len() implies start_le(#[trigger] r[a].start, #[trigger] r[b].start) by {
        if b < j {
            assert(r[a] == s[a] && r[b] == s[b]);
        } else if b == j {
            assert(r[a] == s[a]);
            lemma_start_le_order(s[a].start, s[j - 1].start, e.start);
        } else if a == j {
            assert(r[b] == s[b - 1]);
            lemma_start_le_order(s[b - 1].start, e.start, e.start);
        } else if a < j {
            assert(r[a] == s[a] && r[b] == s[b - 1]);
        } else {
            assert(r[a] == s[a - 1] && r[b] == s[b - 1]);
        }
    }
}

/// Inserting adds exactly the inserted event.
proof fn lemma_insert_by_start_multiset(s: Seq<CalendarEventView>, e: CalendarEventView)
    ensures
        insert_by_start(s, e).to_multiset() =~= s.to_multiset().insert(e),
    decreases s.len(),
{
    broadcast use vstd::seq_lib::group_to_multiset_ensures;
    if s.len() == 0 {
        assert(seq![e] == s.push(e));
    } else if start_le(s.last().start, e.start) {
    } else {
        let d = s.drop_last();
        lemma_insert_by_start_multiset(d, e);
        assert(d.push(s.last()) == s);
    }
}

/// Sorting by start orders the events.
pub proof fn lemma_sort_by_start_sorted(s: Seq<CalendarEventView>)
    ensures
        sorted_by_start(sort_by_start(s)),
    decreases s.len(),
{
    if s.len() > 0 {
        lemma_sort_by_start_sorted(s.drop_last());
        lemma_insert_by_start_sorted(sort_by_start(s.drop_last()), s.last());
    }
}

/// Sorting by start neither loses nor adds an event.
pub proof fn lemma_sort_by_start_permutes(s: Seq<CalendarEventView>)
    ensures
        sort_by_start(s).to_multiset() =~= s.to_multiset(),
    decreases s.len(),
{
    broadcast use vstd::seq_lib::group_to_multiset_ensures;
    if s.len() > 0 {
        let d = s.drop_last();
        lemma_sort_by_start_permutes(d);
        lemma_insert_by_start_multiset(sort_by_start(d), s.last());
        assert(d.push(s.last()) == s);
    }
}


/// Every listed event was read from the calendar and ends after `now`.
pub proof fn lemma_upcoming_only_future(records: Seq<CalendarEventView>, now: Instant)
    ensures
        forall|k: int| 0 <= k < spec_upcoming(records, now).len() ==> exists|i: int|
            0 <= i < records.len() && ends_after(records[i], now)
                && #[trigger] spec_upcoming(records, now)[k] == handed_out(records[i]),
    decreases records.len(),
{
    if records.len() > 0 {
        let d = records.drop_last();
        lemma_upcoming_only_future(d, now);
        let u = spec_upcoming(records, now);
        assert forall|k: int| 0 <= k < u.len() implies exists|i: int|
            0 <= i < records.len() && ends_after(records[i], now) && #[trigger] u[k] == handed_out(records[i]) by {
            if k < spec_upcoming(d, now).len() {
                assert(u[k] == spec_upcoming(d, now)[k]);
                let i = choose|i: int| 0 <= i < d.len() && ends_after(d[i], now) && spec_upcoming(d, now)[k] == handed_out(d[i]);
                assert(records[i] == d[i]);
            } else {
                assert(records[records.len() - 1] == records.last());
            }
        }
    }
}

/// Midnight UTC at the start of the day that is `days_from_ce` days after
/// 31 December of the year 0 in the proleptic Gregorian calendar (chrono's
/// `num_days_from_ce`; 1 January 1970 is day 719163).
pub fn date_midnight_utc(days_from_ce: i32) -> (r: Instant)
    ensures
        r.secs == (days_from_ce - 719163) * 86400,
        r.nanos == 0,
{
    Instant { secs: ((days_from_ce as i64) - 719163) * 86400, nanos: 0 }
}

/// A `DTSTART` or `DTEND` as read: a date, by chrono's `num_days_from_ce`,
/// or a date and time as icalendar converts it to UTC, which gives nothing
/// for a floating time or a time zone it does not know.
#[derive(Clone, Copy, Debug, PartialEq, Eq, Structural)]
pub enum EventTime {
    Date(i32),
    DateTime(Option<Instant>),
}

/// An event as read from a calendar, before its times become points in
/// time.
#[derive(Debug)]
pub struct EventReading {
    pub summary: Option<String>,
    pub location: Option<String>,
    pub description: Option<String>,
    pub start: Option<EventTime>,
    pub end: Option<EventTime>,
}

/// An event as read, as plain values.
pub struct EventReadingView {
    pub summary: Option<Seq<char>>,
    pub location: Option<Seq<char>>,
    pub description: Option<Seq<char>>,
    pub start: Option<EventTime>,
    pub end: Option<EventTime>,
}

impl View for EventReading {
    type V = EventReadingView;

    open spec fn view(&self) -> EventReadingView {
        EventReadingView {
            summary: opt_text(self.summary),
            location: opt_text(self.location),
            description: opt_text(self.description),
            start: self.start,
            end: self.end,
        }
    }
}

/// What a calendar holds: the events that `icalendar::Calendar::events`
/// yields, in order, each read with `get_summary`, `get_location`,
/// `get_description`, `get_start` and `get_end`.
pub uninterp spec fn spec_calendar_events(cal: Calendar) -> Seq<EventReadingView>;

/// The text that `icalendar::parser::unfold` makes of `text`: its folded
/// lines joined again.
pub uninterp spec fn spec_unfold(text: Seq<char>) -> Seq<char>;

/// Joins the folded lines of calendar text with `icalendar::parser::unfold`.
#[verifier::external_body]
fn unfold_lines(text: &str) -> (r: String)
    ensures
        r@ == spec_unfold(text@),
{
    icalendar::parser::unfold(text)
}

/// What `icalendar::parser::read_calendar` reads from unfolded calendar
/// text: the events of the calendar that `Calendar::from` makes of it, or
/// the message with which the parser refuses the text. The parser is a
/// function of the text alone.
pub uninterp spec fn spec_read_calendar(text: Seq<char>) -> Result<Seq<EventReadingView>, Seq<char>>;

/// Parses unfolded calendar text with `icalendar::parser::read_calendar`
/// and turns it into a `Calendar` with `Calendar::from`; the events it
/// holds, or the parser's message, are what `spec_read_calendar` names.
#[verifier::external_body]
fn parse_calendar(text: &str) -> (r: Result<Calendar, String>)
    ensures
        match r {
            Ok(c) => spec_read_calendar(text@) == Ok::<Seq<EventReadingView>, Seq<char>>(spec_calendar_events(c)),
            Err(m) => spec_read_calendar(text@) == Err::<Seq<EventReadingView>, Seq<char>>(m@),
        },
{
    Ok(Calendar::from(icalendar::parser::read_calendar(text)?))
}

/// How many events `Calendar::events` yields.
#[verifier::external_body]
fn calendar_event_count(cal: &Calendar) -> (r: usize)
    ensures
        r == spec_calendar_events(*cal).len(),
{
    cal.events().count()
}

/// The `i`th event that `Calendar::events` yields, read into plain values:
/// its texts, and its start and end as a date or as
/// `CalendarDateTime::try_into_utc` converts them.
#[verifier::external_body]
fn calendar_event(cal: &Calendar, i: usize) -> (r: EventReading)
    requires
        i < spec_calendar_events(*cal).len(),
    ensures
        r@ == spec_calendar_events(*cal)[i as int],
{
    let e = cal.events().nth(i).unwrap();
    let time = |d: DatePerhapsTime| match d {
        DatePerhapsTime::Date(day) => EventTime::Date(day.num_days_from_ce()),
        DatePerhapsTime::DateTime(t) => EventTime::DateTime(
            t.try_into_utc().map(|u| Instant { secs: u.timestamp(), nanos: u.timestamp_subsec_nanos() })),
    };
    let text = |t: Option<&str>| t.map(String::from);
    EventReading { summary: text(e.get_summary()), location: text(e.get_location()),
        description: text(e.get_description()), start: e.get_start().map(time), end: e.get_end().map(time) }
}

/// Midnight UTC of day `days_from_ce`.
pub open spec fn spec_midnight(days_from_ce: i32) -> Instant {
    Instant { secs: ((days_from_ce - 719163) * 86400) as i64, nanos: 0 }
}

/// A `DTSTART` or `DTEND` as a point in time: a date means its midnight in
/// UTC, a date and time its UTC time where icalendar could convert it.
pub open spec fn spec_time_instant(t: EventTime) -> Option<Instant> {
    match t {
        EventTime::Date(d) => Some(spec_midnight(d)),
        EventTime::DateTime(u) => u,
    }
}

/// An optional `DTSTART` or `DTEND` as a point in time.
pub open spec fn spec_opt_instant(t: Option<EventTime>) -> Option<Instant> {
    match t {
        Some(x) => spec_time_instant(x),
        None => None,
    }
}

/// An event as read, with its times as points in time.
pub open spec fn spec_record(e: EventReadingView) -> CalendarEventView {
    CalendarEventView {
        summary: e.summary,
        location: e.location,
        description: e.description,
        start: spec_opt_instant(e.start),
        end: spec_opt_instant(e.end),
    }
}

/// The records of a list of read events.
pub open spec fn spec_records(v: Seq<EventReadingView>) -> Seq<CalendarEventView> {
    v.map_values(|e: EventReadingView| spec_record(e))
}

/// A `DTSTART` or `DTEND` as a point in time: a date means its midnight in
/// UTC, a date and time its UTC time where icalendar could convert it.
pub fn date_perhaps_time_to_instant(t: EventTime) -> (r: Option<Instant>)
    ensures
        r == spec_time_instant(t),
{
    match t {
        EventTime::Date(days) => Some(date_midnight_utc(days)),
        EventTime::DateTime(u) => u,
    }
}

/// An optional `DTSTART` or `DTEND` as a point in time; a missing one gives
/// none.
fn opt_instant(d: Option<EventTime>) -> (r: Option<Instant>)
    ensures
        r == spec_opt_instant(d),
{
    match d {
        Some(t) => date_perhaps_time_to_instant(t),
        None => None,
    }
}

/// The events of a calendar, in order, with their times as points in time.
fn event_records(cal: &Calendar) -> (r: Vec<EventRecord>)
    ensures
        records_view(r@) == spec_records(spec_calendar_events(*cal)),
{
    let ghost all = spec_calendar_events(*cal);
    let n = calendar_event_count(cal);
    let mut records: Vec<EventRecord> = Vec::new();
    for i in 0..n
        invariant
            all == spec_calendar_events(*cal),
            n == all.len(),
            records_view(records@) == spec_records(all.take(i as int)),
    {
        let e = calendar_event(cal, i);
        let rec = EventRecord {
            summary: e.summary,
            location: e.location,
            description: e.description,
            start: opt_instant(e.start),
            end: opt_instant(e.end),
        };
        let ghost before = records@;
        records.push(rec);
        proof {
            assert(all.take(i + 1) == all.take(i as int).push(all[i as int]));
            assert(records_view(records@) =~= records_view(before).push(rec@));
            assert(spec_records(all.take(i + 1)) =~= spec_records(all.take(i as int)).push(spec_record(all[i as int])));
        }
    }
    proof {
        assert(all.take(n as int) == all);
    }
    records
}

/// The events read that end after `now` are exactly those listed, in the
/// order read, each as it is handed out: an event that started before `now`
/// and has not ended is listed too.
pub proof fn lemma_upcoming_is_filter(records: Seq<CalendarEventView>, now: Instant)
    ensures
        spec_upcoming(records, now) == records.filter(|e: CalendarEventView| ends_after(e, now)).map_values(
            |e: CalendarEventView| handed_out(e),
        ),
    decreases records.len(),
{
    reveal_with_fuel(Seq::filter, 1);
    let pred = |e: CalendarEventView| ends_after(e, now);
    if records.len() == 0 {
        assert(records.filter(pred) =~= Seq::<CalendarEventView>::empty());
        assert(spec_upcoming(records, now) =~= records.filter(pred).map_values(|e: CalendarEventView| handed_out(e)));
    } else {
        let d = records.drop_last();
        lemma_upcoming_is_filter(d, now);
        assert(records.filter(pred) == (if pred(records.last()) {
            d.filter(pred).push(records.last())
        } else {
            d.filter(pred)
        }));
        assert(spec_upcoming(records, now) =~= records.filter(pred).map_values(|e: CalendarEventView| handed_out(e)));
    }
}

/// Every event read that ends after `now` is listed by the API, whatever
/// its start.
pub proof fn lemma_listed_complete(records: Seq<CalendarEventView>, now: Instant, i: int)
    requires
        0 <= i < records.len(),
        ends_after(records[i], now),
    ensures
        sort_by_start(spec_upcoming(records, now)).contains(handed_out(records[i])),
{
    broadcast use vstd::seq_lib::group_to_multiset_ensures;
    let pred = |e: CalendarEventView| ends_after(e, now);
    lemma_upcoming_is_filter(records, now);
    records.lemma_filter_contains(pred, i);
    let f = records.filter(pred);
    let j = choose|j: int| 0 <= j < f.len() && f[j] == records[i];
    let u = spec_upcoming(records, now);
    assert(u[j] == handed_out(records[i]));
    assert(u.contains(handed_out(records[i])));
    lemma_sort_by_start_permutes(u);
    assert(u.to_multiset().count(handed_out(records[i])) > 0);
    assert(sort_by_start(u).to_multiset().count(handed_out(records[i])) > 0);
}

/// Every event that the API lists of a calendar ends after `now`.
pub proof fn lemma_listed_only_future(records: Seq<CalendarEventView>, now: Instant)
    ensures
        forall|k: int| 0 <= k < sort_by_start(spec_upcoming(records, now)).len()
            ==> ends_after(#[trigger] sort_by_start(spec_upcoming(records, now))[k], now),
{
    broadcast use vstd::seq_lib::group_to_multiset_ensures;
    let u = spec_upcoming(records, now);
    let s = sort_by_start(u);
    lemma_sort_by_start_permutes(u);
    lemma_upcoming_only_future(records, now);
    assert forall|k: int| 0 <= k < s.len() implies ends_after(#[trigger] s[k], now) by {
        assert(s.contains(s[k]));
        assert(s.to_multiset().count(s[k]) > 0);
        assert(u.to_multiset().count(s[k]) > 0);
        assert(u.contains(s[k]));
        let j = choose|j: int| 0 <= j < u.len() && u[j] == s[k];
        assert(u[j] == s[k]);
        let i = choose|i: int| 0 <= i < records.len() && ends_after(records[i], now) && u[j] == handed_out(records[i]);
        assert(ends_after(records[i], now));
    }
}

/// Reads a calendar and lists its coming events: those of the events read
/// that end after `now`, as `upcoming_events` hands them out, sorted by
/// start. A calendar that does not parse gives the parser's message.
pub fn calendar_events_from_text(text: &str, now: Instant) -> (r: Result<Vec<CalendarEvent>, Error>)
    ensures
        match spec_read_calendar(spec_unfold(text@)) {
            Ok(evs) => r matches Ok(v)
                && events_view(v@) == sort_by_start(spec_upcoming(spec_records(evs), now))
                && sorted_by_start(events_view(v@))
                && forall|k: int| 0 <= k < v@.len() ==> ends_after(#[trigger] events_view(v@)[k], now),
            Err(m) => r matches Err(e) && e.text() == m,
        },
{
    let unfolded = unfold_lines(text);
    match parse_calendar(unfolded.as_str()) {
        Err(m) => Err(Error::Message(m)),
        Ok(cal) => {
            let records = event_records(&cal);
            let events = upcoming_events(&records, now);
            proof {
                lemma_sort_by_start_sorted(spec_upcoming(records_view(records@), now));
                lemma_listed_only_future(records_view(records@), now);
            }
            Ok(events)
        },
    }
}


/// How long a fetched calendar is served before it is fetched again: four
/// hours.
pub const CALENDAR_TTL_SECS: i64 = 14400;

/// A value kept for a fixed time after it was stored.
pub struct TimedCache<T> {
    ttl_secs: i64,
    entry: Option<(i64, T)>,
}

impl<T> TimedCache<T> {
    /// How many seconds a stored value stays fresh.
    pub closed spec fn ttl(&self) -> int {
        self.ttl_secs as int
    }

    /// The stored value and the Unix time at which it was stored.
    pub closed spec fn entry(&self) -> Option<(i64, T)> {
        self.entry
    }

    /// An empty cache whose values stay fresh for `ttl_secs` seconds.
    pub fn with_ttl(ttl_secs: i64) -> (c: Self)
        ensures
            c.ttl() == ttl_secs,
            c.entry() is None,
    {
        TimedCache { ttl_secs, entry: None }
    }

    /// Whether the value must be produced again at `now`: nothing is
    /// stored, or it was stored at least the time to live ago.
    pub fn is_stale(&self, now: i64) -> (r: bool)
        ensures
            r == spec_is_stale(self.entry(), self.ttl(), now),
    {
        match &self.entry {
            None => true,
            Some(e) => (now as i128) - (e.0 as i128) >= (self.ttl_secs as i128),
        }
    }

    /// Stores `value`, produced at `now`.
    pub fn store(&mut self, now: i64, value: T)
        ensures
            final(self).entry() == Some((now, value)),
            final(self).ttl() == old(self).ttl(),
    {
        self.entry = Some((now, value));
    }

    /// The stored value, fresh or not.
    pub fn value(&self) -> (r: Option<&T>)
        ensures
            match self.entry() {
                Some(e) => r == Some(&e.1),
                None => r is None,
            },
    {
        match &self.entry {
            Some(e) => Some(&e.1),
            None => None,
        }
    }
}

/// Whether a cache entry must be produced again at `now`.
pub open spec fn spec_is_stale<T>(entry: Option<(i64, T)>, ttl: int, now: i64) -> bool {
    match entry {
        None => true,
        Some(e) => now - e.0 >= ttl,
    }
}

/// A stored value stays fresh from the time it was stored until its time to
/// live has passed.
pub proof fn lemma_fresh_until_ttl<T>(stored_at: i64, value: T, ttl: int, now: i64)
    requires
        stored_at <= now < stored_at + ttl,
    ensures
        !spec_is_stale(Some((stored_at, value)), ttl, now),
{
}

/// A stored value must be produced again once its time to live has
/// passed, and so must one that was never stored.
pub proof fn lemma_stale_after_ttl<T>(stored_at: i64, value: T, ttl: int, now: i64)
    ensures
        now >= stored_at + ttl ==> spec_is_stale(Some((stored_at, value)), ttl, now),
        spec_is_stale(None::<(i64, T)>, ttl, now),
{
}

/// A fetch of a calendar: its events, or the failure.
pub type CalendarFetch = Result<Vec<CalendarEvent>, Error>;

/// A fetch as plain values.
pub open spec fn fetch_view(f: CalendarFetch) -> Result<Seq<CalendarEventView>, Seq<char>> {
    match f {
        Ok(v) => Ok(events_view(v@)),
        Err(e) => Err(e.text()),
    }
}

struct CalendarSlot {
    name: String,
    url: String,
    cache: TimedCache<CalendarFetch>,
}

/// A mirrored calendar as plain values: name, URL, and the time and
/// outcome of the last fetch.
pub struct CalendarSlotView {
    pub name: Seq<char>,
    pub url: Seq<char>,
    pub fetched: Option<(i64, Result<Seq<CalendarEventView>, Seq<char>>)>,
}

/// The mirrored calendars.
pub struct CalendarData {
    calendars: Vec<CalendarSlot>,
}

spec fn slot_view(s: CalendarSlot) -> CalendarSlotView {
    CalendarSlotView {
        name: s.name@,
        url: s.url@,
        fetched: match s.cache.entry() {
            Some(e) => Some((e.0, fetch_view(e.1))),
            None => None,
        },
    }
}

spec fn slots_view(v: Seq<CalendarSlot>) -> Seq<CalendarSlotView> {
    v.map_values(|s: CalendarSlot| slot_view(s))
}

impl View for CalendarData {
    type V = Seq<CalendarSlotView>;

    closed spec fn view(&self) -> Seq<CalendarSlotView> {
        slots_view(self.calendars@)
    }
}

/// The URL given last for `name` among the `--calendar name=url` options.
pub open spec fn last_url(pairs: Seq<(Seq<char>, Seq<char>)>, name: Seq<char>) -> Option<Seq<char>>
    decreases pairs.len(),
{
    if pairs.len() == 0 {
        None
    } else if pairs.last().0 == name {
        Some(pairs.last().1)
    } else {
        last_url(pairs.drop_last(), name)
    }
}

/// No calendar name occurs twice.
pub open spec fn names_unique(slots: Seq<CalendarSlotView>) -> bool {
    forall|i: int, j: int| 0 <= i < j < slots.len() ==> slots[i].name != slots[j].name
}

/// The URL configured for `name`, if it is a calendar.
pub open spec fn slot_url(slots: Seq<CalendarSlotView>, name: Seq<char>) -> Option<Seq<char>> {
    if exists|i: int| 0 <= i < slots.len() && slots[i].name == name {
        Some(slots[choose|i: int| 0 <= i < slots.len() && slots[i].name == name].url)
    } else {
        None
    }
}

/// What a request for a calendar finds.
pub enum CalendarLookup<'a> {
    /// There is no calendar of that name.
    Unknown,
    /// The calendar must be fetched from this URL first.
    Refetch(String),
    /// The last fetch failed.
    Failed(Error),
    /// The events of the last fetch.
    Cached(&'a Vec<CalendarEvent>),
}

/// What a request for a calendar finds, as plain values.
pub enum LookupView {
    Unknown,
    Refetch(Seq<char>),
    Failed(Seq<char>),
    Cached(Seq<CalendarEventView>),
}

impl<'a> View for CalendarLookup<'a> {
    type V = LookupView;

    open spec fn view(&self) -> LookupView {
        match self {
            CalendarLookup::Unknown => LookupView::Unknown,
            CalendarLookup::Refetch(u) => LookupView::Refetch(u@),
            CalendarLookup::Failed(e) => LookupView::Failed(e.text()),
            CalendarLookup::Cached(v) => LookupView::Cached(events_view(v@)),
        }
    }
}

/// What a request for calendar `name` finds at `now`: nothing for an
/// unknown name; a fetch is due where none was made or the last one is
/// four hours old; otherwise the last fetch's events, or the message that
/// it failed.
pub open spec fn spec_lookup(slots: Seq<CalendarSlotView>, name: Seq<char>, now: i64) -> LookupView {
    if exists|i: int| 0 <= i < slots.len() && slots[i].name == name {
        let s = slots[choose|i: int| 0 <= i < slots.len() && slots[i].name == name];
        match s.fetched {
            None => LookupView::Refetch(s.url),
            Some(f) => if now - f.0 >= CALENDAR_TTL_SECS {
                LookupView::Refetch(s.url)
            } else {
                match f.1 {
                    Ok(events) => LookupView::Cached(events),
                    Err(_) => LookupView::Failed("failed to fetch calendar"@),
                }
            },
        }
    } else {
        LookupView::Unknown
    }
}

/// The calendars after the fetch of `name` at `now` was stored.
pub open spec fn spec_store(
    slots: Seq<CalendarSlotView>,
    name: Seq<char>,
    now: i64,
    fetched: Result<Seq<CalendarEventView>, Seq<char>>,
) -> Seq<CalendarSlotView> {
    slots.map_values(|s: CalendarSlotView|
        if s.name == name {
            CalendarSlotView { name: s.name, url: s.url, fetched: Some((now, fetched)) }
        } else {
            s
        })
}

/// With unique names, a calendar's URL is found by its name.
proof fn lemma_slot_url_at(slots: Seq<CalendarSlotView>, i: int)
    requires
        names_unique(slots),
        0 <= i < slots.len(),
    ensures
        slot_url(slots, slots[i].name) == Some(slots[i].url),
        spec_lookup_slot(slots, slots[i].name) == i,
{
    let n = slots[i].name;
    assert(exists|j: int| 0 <= j < slots.len() && slots[j].name == n);
    let j = choose|j: int| 0 <= j < slots.len() && slots[j].name == n;
    if j != i {
        if j < i {
            assert(slots[j].name != slots[i].name);
        } else {
            assert(slots[i].name != slots[j].name);
        }
    }
}

/// The index that `slot_url` and `spec_lookup` pick for `name`.
pub open spec fn spec_lookup_slot(slots: Seq<CalendarSlotView>, name: Seq<char>) -> int {
    choose|i: int| 0 <= i < slots.len() && slots[i].name == name
}

/// The index of the calendar named `name`.
fn find_slot(slots: &Vec<CalendarSlot>, name: &str) -> (r: Option<usize>)
    ensures
        match r {
            Some(k) => k < slots@.len() && slots@[k as int].name@ == name@,
            None => forall|m: int| 0 <= m < slots@.len() ==> (#[trigger] slots@[m]).name@ != name@,
        },
{
    let target = chars_of(name);
    for k in 0..slots.len()
        invariant
            target@ == name@,
            forall|m: int| 0 <= m < k ==> (#[trigger] slots@[m]).name@ != name@,
    {
        if crate::text::chars_eq(&chars_of(slots[k].name.as_str()), &target) {
            return Some(k);
        }
    }
    None
}

impl CalendarData {
    /// The calendars of the `--calendar name=url` options, none fetched
    /// yet; a name given twice keeps the URL given last.
    pub fn new(calendars: &Vec<(String, String)>) -> (r: CalendarData)
        ensures
            r.well_formed(),
            names_unique(r@),
            forall|name: Seq<char>| #[trigger] slot_url(r@, name)
                == last_url(calendars@.map_values(|p: (String, String)| (p.0@, p.1@)), name),
            forall|i: int| 0 <= i < r@.len() ==> (#[trigger] r@[i]).fetched is None,
    {
        let ghost pairs = calendars@.map_values(|p: (String, String)| (p.0@, p.1@));
        let mut slots: Vec<CalendarSlot> = Vec::new();
        for i in 0..calendars.len()
            invariant
                pairs == calendars@.map_values(|p: (String, String)| (p.0@, p.1@)),
                names_unique(slots_view(slots@)),
                forall|name: Seq<char>| #[trigger] slot_url(slots_view(slots@), name)
                    == last_url(pairs.take(i as int), name),
                forall|k: int| 0 <= k < slots@.len() ==> (#[trigger] slots@[k]).cache.entry() is None,
                forall|k: int| 0 <= k < slots@.len() ==> (#[trigger] slots@[k]).cache.ttl() == CALENDAR_TTL_SECS,
        {
            let ghost before = slots_view(slots@);
            let name = &calendars[i].0;
            let url = &calendars[i].1;
            let found = find_slot(&slots, name.as_str());
            proof {
                assert forall|j: int| 0 <= j < before.len() && (found is None || j != found->0 as int)
                    implies before[j].name != name@ by {
                    assert(before[j] == slot_view(slots@[j]));
                    if let Some(f) = found {
                        assert(before[f as int] == slot_view(slots@[f as int]));
                        if j < f {
                            assert(before[j].name != before[f as int].name);
                        } else {
                            assert(before[f as int].name != before[j].name);
                        }
                    }
                }
                assert(pairs.take(i + 1).drop_last() == pairs.take(i as int));
                assert(pairs.take(i + 1).last() == (name@, url@));
            }
            let slot = CalendarSlot {
                name: name.clone(),
                url: url.clone(),
                cache: TimedCache::with_ttl(CALENDAR_TTL_SECS),
            };
            let ghost k: int = match found { Some(k) => k as int, None => before.len() as int };
            match found {
                Some(k) => {
                    slots.set(k, slot);
                },
                None => {
                    slots.push(slot);
                },
            }
            proof {
                let after = slots_view(slots@);
                assert(after.len() == before.len() || after.len() == before.len() + 1);
                assert(after[k].name == name@ && after[k].url == url@);
                assert forall|j: int| 0 <= j < after.len() && j != k implies #[trigger] after[j] == before[j] by {}
                assert forall|a: int, b: int| 0 <= a < b < after.len() implies after[a].name != after[b].name by {
                    if a != k && b != k {
                        assert(after[a] == before[a] && after[b] == before[b]);
                    } else if a == k {
                        assert(after[b] == before[b]);
                    } else {
                        assert(after[a] == before[a]);
                    }
                }
                assert forall|n: Seq<char>| #[trigger] slot_url(after, n) == last_url(pairs.take(i + 1), n) by {
                    if n == name@ {
                        lemma_slot_url_at(after, k);
                    } else {
                        assert(last_url(pairs.take(i + 1), n) == last_url(pairs.take(i as int), n));
                        if exists|j: int| 0 <= j < before.len() && before[j].name == n {
                            let j = choose|j: int| 0 <= j < before.len() && before[j].name == n;
                            lemma_slot_url_at(before, j);
                            assert(after[j] == before[j]);
                            lemma_slot_url_at(after, j);
                        } else {
                            assert forall|j: int| 0 <= j < after.len() implies after[j].name != n by {
                                if j != k {
                                    assert(after[j] == before[j]);
                                }
                            }
                        }
                    }
                }
            }
        }
        proof {
            assert(pairs.take(pairs.len() as int) == pairs);
        }
        CalendarData { calendars: slots }
    }
}

impl CalendarData {
    /// No name occurs twice and every cache keeps a fetch four hours.
    pub closed spec fn well_formed(&self) -> bool {
        &&& names_unique(self@)
        &&& forall|k: int| 0 <= k < self.calendars@.len() ==> (#[trigger] self.calendars@[k]).cache.ttl() == CALENDAR_TTL_SECS
    }

    /// The names of the calendars.
    pub fn calendar_names(&self) -> (r: Vec<String>)
        ensures
            r@.map_values(|s: String| s@) == self@.map_values(|s: CalendarSlotView| s.name),
    {
        let mut names: Vec<String> = Vec::new();
        for i in 0..self.calendars.len()
            invariant
                names@.map_values(|s: String| s@) == self@.take(i as int).map_values(|s: CalendarSlotView| s.name),
        {
            let ghost before = names@;
            names.push(self.calendars[i].name.clone());
            proof {
                assert(self@[i as int] == slot_view(self.calendars@[i as int]));
                assert(names@.map_values(|s: String| s@) =~= before.map_values(|s: String| s@).push(self@[i as int].name));
                assert(self@.take(i + 1) == self@.take(i as int).push(self@[i as int]));
                assert(self@.take(i + 1).map_values(|s: CalendarSlotView| s.name)
                    =~= self@.take(i as int).map_values(|s: CalendarSlotView| s.name).push(self@[i as int].name));
            }
        }
        proof {
            assert(self@.take(self@.len() as int) == self@);
        }
        names
    }

    /// Looks up calendar `name` at `now` (see `spec_lookup`).
    pub fn lookup(&self, name: &str, now: i64) -> (r: CalendarLookup<'_>)
        requires
            self.well_formed(),
        ensures
            r@ == spec_lookup(self@, name@, now),
    {
        match find_slot(&self.calendars, name) {
            None => {
                assert forall|i: int| 0 <= i < self@.len() implies self@[i].name != name@ by {
                    assert(self@[i] == slot_view(self.calendars@[i]));
                }
                CalendarLookup::Unknown
            },
            Some(k) => {
                proof {
                    assert(self@[k as int] == slot_view(self.calendars@[k as int]));
                    lemma_slot_url_at(self@, k as int);
                }
                let slot = &self.calendars[k];
                if slot.cache.is_stale(now) {
                    CalendarLookup::Refetch(slot.url.clone())
                } else {
                    match slot.cache.value() {
                        Some(Ok(events)) => CalendarLookup::Cached(events),
                        _ => CalendarLookup::Failed(Error::Message(String::from_str("failed to fetch calendar"))),
                    }
                }
            },
        }
    }

    /// Keeps the outcome of fetching calendar `name` at `now`.
    pub fn store(&mut self, name: &str, now: i64, fetched: CalendarFetch)
        requires
            old(self).well_formed(),
        ensures
            final(self).well_formed(),
            final(self)@ == spec_store(old(self)@, name@, now, fetch_view(fetched)),
    {
        let ghost before = self@;
        let ghost fv = fetch_view(fetched);
        match find_slot(&self.calendars, name) {
            None => {
                proof {
                    assert forall|i: int| 0 <= i < before.len() implies before[i].name != name@ by {
                        assert(before[i] == slot_view(self.calendars@[i]));
                    }
                    assert(spec_store(before, name@, now, fv) =~= before);
                }
            },
            Some(k) => {
                let ghost old_slots = self.calendars@;
                let mut slot = self.calendars.remove(k);
                slot.cache.store(now, fetched);
                self.calendars.insert(k, slot);
                proof {
                    assert(self.calendars@ =~= old_slots.update(k as int, slot));
                    assert forall|i: int| 0 <= i < before.len() && i != k implies before[i].name != name@ by {
                        assert(before[i] == slot_view(old_slots[i]));
                        assert(before[k as int] == slot_view(old_slots[k as int]));
                        if i < k {
                            assert(before[i].name != before[k as int].name);
                        } else {
                            assert(before[k as int].name != before[i].name);
                        }
                    }
                    assert(self@ =~= spec_store(before, name@, now, fv));
                }
            },
        }
    }
}

/// A fetched calendar is served from the cache for four hours: looking up
/// a calendar whose fetch was stored at `fetched_at` finds that fetch's
/// events, or the failure, at every time before four hours have passed.
pub proof fn lemma_served_from_cache(
    slots: Seq<CalendarSlotView>,
    name: Seq<char>,
    fetched_at: i64,
    fetched: Result<Seq<CalendarEventView>, Seq<char>>,
    now: i64,
)
    requires
        names_unique(slots),
        exists|i: int| 0 <= i < slots.len() && slots[i].name == name,
        fetched_at <= now < fetched_at + CALENDAR_TTL_SECS,
    ensures
        spec_lookup(spec_store(slots, name, fetched_at, fetched), name, now) == match fetched {
            Ok(events) => LookupView::Cached(events),
            Err(_) => LookupView::Failed("failed to fetch calendar"@),
        },
{
    let i = choose|i: int| 0 <= i < slots.len() && slots[i].name == name;
    let after = spec_store(slots, name, fetched_at, fetched);
    assert(after[i].name == name);
    assert forall|a: int, b: int| 0 <= a < b < after.len() implies after[a].name != after[b].name by {
        assert(slots[a].name != slots[b].name);
    }
    lemma_slot_url_at(after, i);
}

/// A lookup finds no calendar exactly where the name is not among the
/// calendars' names (those that `calendar_names` lists).
pub proof fn lemma_unknown_iff_not_named(slots: Seq<CalendarSlotView>, name: Seq<char>, now: i64)
    ensures
        (spec_lookup(slots, name, now) == LookupView::Unknown)
            <==> !slots.map_values(|s: CalendarSlotView| s.name).contains(name),
{
    let names = slots.map_values(|s: CalendarSlotView| s.name);
    if names.contains(name) {
        let k = choose|k: int| 0 <= k < names.len() && names[k] == name;
        assert(slots[k].name == name);
    } else {
        assert forall|i: int| 0 <= i < slots.len() implies slots[i].name != name by {
            assert(names[i] == slots[i].name);
        }
    }
}

} // verus!
