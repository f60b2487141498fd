use cal2prompt::cli::{determine_duration_or_range, duration_around, Cli, Clock, EventDurationCalculator, FetchMode, GetEventDuration};
use cal2prompt::date::{format_iso_date, parse_rfc3339_instant, Zone};

struct FixedClock(i64);

impl Clock for FixedClock {
    fn now(&self) -> i64 {
        self.0
    }
}

fn at(text: &str) -> FixedClock {
    FixedClock(parse_rfc3339_instant(text).unwrap())
}

fn range_text(clock: FixedClock, duration: GetEventDuration) -> (String, String) {
    let calculator = EventDurationCalculator::new(clock);
    let jst = Zone::parse("Asia/Tokyo").unwrap();
    let (since, until) = calculator.get_duration(&jst, duration).unwrap();
    (format_iso_date(since), format_iso_date(until))
}

#[test]
fn test_today() {
    let (since, until) = range_text(at("2025-01-26T15:00:00Z"), GetEventDuration::Today);
    assert_eq!(since, "2025-01-27");
    assert_eq!(until, "2025-01-27");
}

#[test]
fn test_this_week() {
    let (since, until) = range_text(at("2025-01-27T15:00:00Z"), GetEventDuration::ThisWeek);
    assert_eq!(since, "2025-01-27");
    assert_eq!(until, "2025-02-02");
}

#[test]
fn test_this_month() {
    let (since, until) = range_text(at("2025-01-26T15:00:00Z"), GetEventDuration::ThisMonth);
    assert_eq!(since, "2025-01-01");
    assert_eq!(until, "2025-01-31");
}

#[test]
fn test_next_week() {
    let (since, until) = range_text(at("2025-01-26T15:00:00Z"), GetEventDuration::NextWeek);
    assert_eq!(since, "2025-02-03");
    assert_eq!(until, "2025-02-09");
}

#[test]
fn december_month_ends_on_the_31st() {
    let (since, until) = range_text(at("2024-12-10T00:00:00Z"), GetEventDuration::ThisMonth);
    assert_eq!(since, "2024-12-01");
    assert_eq!(until, "2024-12-31");
    let (since, until) = range_text(at("2024-02-10T00:00:00Z"), GetEventDuration::ThisMonth);
    assert_eq!(since, "2024-02-01");
    assert_eq!(until, "2024-02-29");
}

fn cli() -> Cli {
    Cli {
        command: None,
        since: None,
        until: None,
        today: false,
        this_week: false,
        this_month: false,
        next_week: false,
        version: false,
    }
}

#[test]
fn explicit_range_wins_over_shortcuts() {
    let mut c = cli();
    c.since = Some("2025-01-01".to_string());
    c.until = Some("2025-01-02".to_string());
    c.today = true;
    match determine_duration_or_range(&c) {
        FetchMode::Range(a, b) => assert_eq!((a.as_str(), b.as_str()), ("2025-01-01", "2025-01-02")),
        _ => panic!("expected a range"),
    }
}

#[test]
fn shortcuts_in_order_and_default_today() {
    let mut c = cli();
    c.this_month = true;
    c.next_week = true;
    assert!(matches!(determine_duration_or_range(&c), FetchMode::Shortcut(GetEventDuration::ThisMonth)));
    let mut c = cli();
    c.since = Some("2025-01-01".to_string());
    assert!(matches!(determine_duration_or_range(&c), FetchMode::Shortcut(GetEventDuration::Today)));
    c.next_week = true;
    assert!(matches!(determine_duration_or_range(&c), FetchMode::Shortcut(GetEventDuration::NextWeek)));
}

#[test]
fn ranges_around_a_given_instant() {
    let utc = Zone::parse("UTC").unwrap();
    let now = parse_rfc3339_instant("2025-01-29T12:00:00Z").unwrap();
    let text = |r: Option<(i64, i64)>| r.map(|(a, b)| (format_iso_date(a), format_iso_date(b)));
    assert_eq!(text(duration_around(&utc, now, GetEventDuration::Today)), Some(("2025-01-29".to_string(), "2025-01-29".to_string())));
    assert_eq!(text(duration_around(&utc, now, GetEventDuration::ThisWeek)), Some(("2025-01-27".to_string(), "2025-02-02".to_string())));
    assert_eq!(text(duration_around(&utc, now, GetEventDuration::NextWeek)), Some(("2025-02-03".to_string(), "2025-02-09".to_string())));
    assert_eq!(text(duration_around(&utc, now, GetEventDuration::ThisMonth)), Some(("2025-01-01".to_string(), "2025-01-31".to_string())));
    assert_eq!(duration_around(&utc, i64::MAX, GetEventDuration::Today), None);
}
