use anthropic_proxy::json::Json;
use anthropic_proxy::skills::calendar::{civil_from_days, ymd};
use anthropic_proxy::skills::eventlog::{init, record};

#[test]
fn civil_from_days_known_dates() {
    assert_eq!(civil_from_days(0), (1970, 1, 1)); // epoch
    assert_eq!(civil_from_days(18_993), (2022, 1, 1));
    // 2026-06-20 is 20624 days after the epoch.
    assert_eq!(civil_from_days(20_624), (2026, 6, 20));
}

#[test]
fn leap_days_are_dates() {
    // 2000-02-29 and 2000-03-01.
    assert_eq!(civil_from_days(11_016), (2000, 2, 29));
    assert_eq!(civil_from_days(11_017), (2000, 3, 1));
    // 1969-12-31.
    assert_eq!(civil_from_days(-1), (1969, 12, 31));
    assert_eq!(ymd(20_624 * 86_400 + 5), "20260620");
}

#[test]
fn each_day_has_its_own_date() {
    let mut before = civil_from_days(-1000);
    for day in -999..40_000 {
        let next = civil_from_days(day);
        assert!(next > before);
        assert!((1..=12).contains(&next.1));
        assert!((1..=31).contains(&next.2));
        before = next;
    }
}

#[test]
fn the_log_is_one_file_per_day() {
    assert!(init("  ", 7).is_none());
    let log = init(" /var/log/events.jsonl ", 0).unwrap();
    assert_eq!(log.stem, "/var/log/events");
    assert_eq!(log.retention, 86_400);
    assert_eq!(log.day_file(0), "/var/log/events-19700101.jsonl");
    assert!(log.is_outdated("events", "events-19700101.jsonl", Some(86_401)));
    assert!(!log.is_outdated("events", "events-19700101.jsonl", Some(86_400)));
    assert!(!log.is_outdated("events", "events-19700101.jsonl", None));
    assert!(!log.is_outdated("events", "other-19700101.jsonl", Some(90_000)));
    assert!(!log.is_outdated("events", "events-19700101.txt", Some(90_000)));
    assert!(!log.is_outdated("events", "events-archive.jsonl", Some(90_000)));
    assert!(!log.is_outdated("events", "events-1970.jsonl", Some(90_000)));
    assert!(log.is_outdated("a", "a-20260620.jsonl", Some(90_000)));
    assert!(!log.is_outdated("a", "a-b-20260620.jsonl", Some(90_000)));
    assert!(!log.is_outdated("events", ".jsonl", Some(90_000)));
}

#[test]
fn events_carry_their_time_and_name() {
    let mut pending = Vec::new();
    let fields = Json::parse("{\"title\": \"x\", \"t\": 1}").unwrap();
    record(&mut pending, "inject", fields, 42);
    record(&mut pending, "tick", Json::Null, 43);
    let first = Json::parse(&pending[0]).unwrap();
    assert!(first.str_is("ev", "inject"));
    assert!(first.str_is("title", "x"));
    assert_eq!(first.get("t").unwrap().as_u64(), Some(42));
    assert_eq!(pending[1], "{\"ev\":\"tick\",\"t\":43}");
}

#[test]
fn waiting_events_are_bounded() {
    let mut pending = Vec::new();
    for i in 0..10_100 {
        record(&mut pending, "tick", Json::Null, i);
    }
    assert_eq!(pending.len(), 10_000);
}
