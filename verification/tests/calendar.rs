use fscs_web::instant::Instant;
use fscs_web::web::calendar::{
    calendar_events_from_text, date_midnight_utc, remove_backslashes, upcoming_events,
    CalendarData, CalendarEvent, CalendarLookup, EventRecord, TimedCache, CALENDAR_TTL_SECS,
};
use fscs_web::web::Error;

fn at(secs: i64) -> Instant {
    Instant { secs, nanos: 0 }
}

fn record(summary: &str, location: Option<&str>, start: Option<i64>, end: Option<i64>) -> EventRecord {
    EventRecord {
        summary: Some(summary.to_string()),
        location: location.map(|l| l.to_string()),
        description: None,
        start: start.map(at),
        end: end.map(at),
    }
}

fn summaries(v: &[CalendarEvent]) -> Vec<String> {
    v.iter().map(|e| e.summary.clone().unwrap_or_default()).collect()
}

#[test]
fn midnight_of_a_day() {
    assert_eq!(date_midnight_utc(719163), at(0));
    assert_eq!(date_midnight_utc(719164), at(86400));
    assert_eq!(date_midnight_utc(719162), at(-86400));
}

#[test]
fn backslashes_removed() {
    assert_eq!(remove_backslashes("Raum 25.12\\, Etage 2"), "Raum 25.12, Etage 2");
    assert_eq!(remove_backslashes(""), "");
}

#[test]
fn only_future_events_sorted_by_start() {
    let records = vec![
        record("late", Some("A\\,B"), Some(300), Some(400)),
        record("past", None, Some(10), Some(50)),
        record("no end", None, Some(200), None),
        record("early", None, Some(150), Some(160)),
        record("no start", None, None, Some(500)),
        record("same start", None, Some(150), Some(170)),
    ];
    let events = upcoming_events(&records, at(100));
    assert_eq!(summaries(&events), vec!["no start", "early", "same start", "late"]);
    assert_eq!(events[3].location.as_deref(), Some("A,B"));
    let ends: Vec<Option<Instant>> = events.iter().map(|e| e.end).collect();
    assert_eq!(ends, vec![Some(at(500)), Some(at(160)), Some(at(170)), Some(at(400))]);
}

#[test]
fn event_ending_now_is_not_listed() {
    let events = upcoming_events(&vec![record("now", None, Some(1), Some(100))], at(100));
    assert!(events.is_empty());
}

const ICS: &str = "BEGIN:VCALENDAR\r\nVERSION:2.0\r\nPRODID:test\r\nBEGIN:VEVENT\r\nUID:1\r\nSUMMARY:Fachschaftssitzung\r\nLOCATION:25.12.02\\, Raum 22\r\nDTSTART:20300102T180000Z\r\nDTEND:20300102T200000Z\r\nEND:VEVENT\r\nBEGIN:VEVENT\r\nUID:2\r\nSUMMARY:Vergangen\r\nDTSTART:20000101T100000Z\r\nDTEND:20000101T110000Z\r\nEND:VEVENT\r\nBEGIN:VEVENT\r\nUID:3\r\nSUMMARY:Ganztags\r\nDTSTART;VALUE=DATE:20300101\r\nDTEND;VALUE=DATE:20300102\r\nEND:VEVENT\r\nEND:VCALENDAR\r\n";

#[test]
fn calendar_text_to_events() {
    let now = at(1_700_000_000);
    let events = calendar_events_from_text(ICS, now).unwrap();
    assert_eq!(summaries(&events), vec!["Ganztags", "Fachschaftssitzung"]);
    assert_eq!(events[0].start, Some(at(1_893_456_000)));
    assert_eq!(events[1].start, Some(at(1_893_607_200)));
    assert_eq!(events[0].end, Some(at(1_893_542_400)));
    assert_eq!(events[1].end, Some(at(1_893_614_400)));
    assert_eq!(events[1].location.as_deref(), Some("25.12.02, Raum 22"));
}

#[test]
fn calendar_text_that_does_not_parse() {
    match calendar_events_from_text("BEGIN:VCALENDAR\r\nBEGIN:VEVENT\r\n", at(0)) {
        Err(Error::Message(_)) => {}
        Ok(v) => panic!("parsed {} events", v.len()),
    }
}

#[test]
fn timed_cache_goes_stale() {
    let mut c: TimedCache<u32> = TimedCache::with_ttl(10);
    assert!(c.is_stale(0));
    assert_eq!(c.value(), None);
    c.store(100, 7);
    assert!(!c.is_stale(100));
    assert!(!c.is_stale(109));
    assert!(c.is_stale(110));
    assert_eq!(c.value(), Some(&7));
}

fn config(list: &[(&str, &str)]) -> Vec<(String, String)> {
    list.iter().map(|(n, u)| (n.to_string(), u.to_string())).collect()
}

#[test]
fn calendars_keep_last_url() {
    let data = CalendarData::new(&config(&[("events", "u1"), ("sitzungen", "u2"), ("events", "u3")]));
    assert_eq!(data.calendar_names(), vec!["events".to_string(), "sitzungen".to_string()]);
    match data.lookup("events", 0) {
        CalendarLookup::Refetch(u) => assert_eq!(u, "u3"),
        _ => panic!(),
    }
    assert!(matches!(data.lookup("missing", 0), CalendarLookup::Unknown));
}

#[test]
fn calendar_served_from_cache_for_four_hours() {
    let mut data = CalendarData::new(&config(&[("events", "u1")]));
    let ev = CalendarEvent { summary: Some("x".to_string()), location: None, description: None, start: None, end: None };
    data.store("events", 1000, Ok(vec![ev]));
    match data.lookup("events", 1000 + CALENDAR_TTL_SECS - 1) {
        CalendarLookup::Cached(v) => assert_eq!(v.len(), 1),
        _ => panic!(),
    }
    match data.lookup("events", 1000 + CALENDAR_TTL_SECS) {
        CalendarLookup::Refetch(u) => assert_eq!(u, "u1"),
        _ => panic!(),
    }
    data.store("events", 2000, Err(Error::Message("boom".to_string())));
    match data.lookup("events", 2001) {
        CalendarLookup::Failed(Error::Message(m)) => assert_eq!(m, "failed to fetch calendar"),
        _ => panic!(),
    }
    data.store("unknown", 3000, Ok(Vec::new()));
    assert_eq!(data.calendar_names(), vec!["events".to_string()]);
}
