use cal2prompt::date::{format_iso_date, intersection_days, parse_iso_date, Zone};
use cal2prompt::model::{Attendee, EventDateTime, EventItem};
use cal2prompt::template::STANDARD;
use cal2prompt::timeline::{group_events_into_days, start_order, Day, Event};
use minijinja::{Environment, Value};

fn date_bound(date: &str) -> Option<EventDateTime> {
    Some(EventDateTime { date_time: None, time_zone: None, date: Some(date.to_string()) })
}

fn time_bound(date_time: &str) -> Option<EventDateTime> {
    Some(EventDateTime {
        date_time: Some(date_time.to_string()),
        time_zone: Some("America/Los_Angeles".to_string()),
        date: None,
    })
}

fn all_day_item(summary: &str, start: &str, end: &str) -> EventItem {
    EventItem {
        summary: Some(summary.to_string()),
        html_link: Some("https://www.google.com/calendar/event?eid=***".to_string()),
        start: date_bound(start),
        end: date_bound(end),
        ..Default::default()
    }
}

fn timed_item(summary: &str, description: &str, location: &str, start: &str, end: &str) -> EventItem {
    EventItem {
        summary: Some(summary.to_string()),
        description: Some(description.to_string()),
        location: Some(location.to_string()),
        html_link: Some("https://www.google.com/calendar/event?eid=***".to_string()),
        start: time_bound(start),
        end: time_bound(end),
        ..Default::default()
    }
}

fn day_number(text: &str) -> i64 {
    parse_iso_date(text).unwrap()
}

fn event_value(e: &Event) -> Value {
    Value::from_iter([
        ("summary", Value::from(e.summary.clone())),
        ("start", Value::from(e.start.clone())),
        ("end", Value::from(e.end.clone())),
        ("location", Value::from(e.location.clone())),
        ("description", Value::from(e.description.clone())),
        ("attendees", Value::from_iter(e.attendees.iter().cloned().map(Value::from))),
        ("html_link", Value::from(e.html_link.clone())),
        ("all_day", Value::from(e.all_day)),
    ])
}

fn render(template: &str, days: &[Day]) -> String {
    let mut env = Environment::new();
    env.set_trim_blocks(true);
    env.set_lstrip_blocks(true);
    env.add_template("schedule", template).unwrap();
    let days_value = Value::from_iter(days.iter().map(|d| {
        Value::from_iter([
            ("date", Value::from(d.date.clone())),
            ("all_day_events", Value::from_iter(d.all_day_events.iter().map(event_value))),
            ("timed_events", Value::from_iter(d.timed_events.iter().map(event_value))),
        ])
    }));
    let ctx = Value::from_iter([("days", days_value)]);
    env.get_template("schedule").unwrap().render(ctx).unwrap()
}

#[test]
fn test_event_to_llm_prompt() {
    let items = vec![
        all_day_item("All Day Event!", "2025-01-04", "2025-01-07"),
        timed_item("Morning Routine", "Wake up and get ready for the day.", "Home", "2025-01-05T23:00:00+09:00", "2025-01-06T00:00:00+09:00"),
        timed_item("Commute to Office", "Drive or take public transit to work.", "Silicon Valley", "2025-01-06T00:00:00+09:00", "2025-01-06T00:30:00+09:00"),
        timed_item("Check Email & Prep", "Respond to emails, plan tasks for the day.", "Office Desk", "2025-01-06T00:30:00+09:00", "2025-01-06T01:30:00+09:00"),
        timed_item("Team Stand-up Meeting", "Daily stand-up with the dev team.", "Meeting Room A", "2025-01-06T01:30:00+09:00", "2025-01-06T02:00:00+09:00"),
        timed_item("Development & Coding", "Focus time for coding new features and bug fixes.", "Office Desk", "2025-01-06T02:00:00+09:00", "2025-01-06T05:00:00+09:00"),
        timed_item("Lunch Break", "Grab lunch with coworkers or nearby café.", "Cafeteria / Nearby Restaurant", "2025-01-06T05:00:00+09:00", "2025-01-06T06:00:00+09:00"),
        timed_item("Code Review & Collaboration", "Review pull requests, pair programming session.", "Office Desk / Meeting Room B", "2025-01-06T06:00:00+09:00", "2025-01-06T08:00:00+09:00"),
        timed_item("Development & Debugging", "Continue feature development, address tech debt.", "Office Desk", "2025-01-06T08:00:00+09:00", "2025-01-06T10:00:00+09:00"),
        timed_item("Commute Home", "Traffic or train ride back home.", "Silicon Valley", "2025-01-06T10:00:00+09:00", "2025-01-06T11:00:00+09:00"),
        timed_item("Evening / Personal Time", "Relax, dinner, side projects, or family time.", "Home", "2025-01-06T11:00:00+09:00", "2025-01-06T16:00:00+09:00"),
    ];
    let tz = Zone::parse("America/Los_Angeles").unwrap();
    let since = day_number("2025-01-05");
    let until = day_number("2025-01-06");

    let days = group_events_into_days(&items, since, until, &tz);
    let prompt = render(STANDARD, &days);

    assert_eq!(
        prompt,
        r#"Here is your schedule summary. Please find the details below:
## Date: 2025-01-05

### All-Day Events:
- All Day Event!
  - (All Day)
  - Location: N/A
  - Description: No description.
  - Attendees:
    - (No attendees)

### Events:
- Morning Routine
  - Start: 06:00
  - End:   07:00
  - Location: Home
  - Description: Wake up and get ready for the day.
  - Attendees:
    - (No attendees)
- Commute to Office
  - Start: 07:00
  - End:   07:30
  - Location: Silicon Valley
  - Description: Drive or take public transit to work.
  - Attendees:
    - (No attendees)
- Check Email & Prep
  - Start: 07:30
  - End:   08:30
  - Location: Office Desk
  - Description: Respond to emails, plan tasks for the day.
  - Attendees:
    - (No attendees)
- Team Stand-up Meeting
  - Start: 08:30
  - End:   09:00
  - Location: Meeting Room A
  - Description: Daily stand-up with the dev team.
  - Attendees:
    - (No attendees)
- Development & Coding
  - Start: 09:00
  - End:   12:00
  - Location: Office Desk
  - Description: Focus time for coding new features and bug fixes.
  - Attendees:
    - (No attendees)
- Lunch Break
  - Start: 12:00
  - End:   13:00
  - Location: Cafeteria / Nearby Restaurant
  - Description: Grab lunch with coworkers or nearby café.
  - Attendees:
    - (No attendees)
- Code Review & Collaboration
  - Start: 13:00
  - End:   15:00
  - Location: Office Desk / Meeting Room B
  - Description: Review pull requests, pair programming session.
  - Attendees:
    - (No attendees)
- Development & Debugging
  - Start: 15:00
  - End:   17:00
  - Location: Office Desk
  - Description: Continue feature development, address tech debt.
  - Attendees:
    - (No attendees)
- Commute Home
  - Start: 17:00
  - End:   18:00
  - Location: Silicon Valley
  - Description: Traffic or train ride back home.
  - Attendees:
    - (No attendees)
- Evening / Personal Time
  - Start: 18:00
  - End:   23:00
  - Location: Home
  - Description: Relax, dinner, side projects, or family time.
  - Attendees:
    - (No attendees)
## Date: 2025-01-06

### All-Day Events:
- All Day Event!
  - (All Day)
  - Location: N/A
  - Description: No description.
  - Attendees:
    - (No attendees)

### Events:
(No timed events)
"#
    )
}

#[test]
fn all_day_trip_spans_both_days_of_window() {
    let items = vec![all_day_item("Trip", "2025-01-04", "2025-01-07")];
    let tz = Zone::parse("America/Los_Angeles").unwrap();
    let days = group_events_into_days(&items, day_number("2025-01-05"), day_number("2025-01-06"), &tz);
    assert_eq!(days.len(), 2);
    assert_eq!(days[0].date, "2025-01-05");
    assert_eq!(days[1].date, "2025-01-06");
    for d in &days {
        assert_eq!(d.all_day_events.len(), 1);
        assert!(d.timed_events.is_empty());
        let e = &d.all_day_events[0];
        assert_eq!(e.summary, "Trip");
        assert_eq!(e.start, "2025-01-04");
        assert_eq!(e.end, "2025-01-07");
        assert!(e.all_day);
    }
}

#[test]
fn timed_event_is_bucketed_on_local_start_date() {
    let items = vec![timed_item(
        "Morning Routine",
        "Wake up",
        "Home",
        "2025-01-05T23:00:00+09:00",
        "2025-01-06T00:00:00+09:00",
    )];
    let tz = Zone::parse("America/Los_Angeles").unwrap();
    let days = group_events_into_days(&items, day_number("2025-01-05"), day_number("2025-01-06"), &tz);
    assert_eq!(days.len(), 1);
    assert_eq!(days[0].date, "2025-01-05");
    assert!(days[0].all_day_events.is_empty());
    assert_eq!(days[0].timed_events.len(), 1);
    assert_eq!(days[0].timed_events[0].start, "06:00");
    assert_eq!(days[0].timed_events[0].end, "07:00");
    assert!(!days[0].timed_events[0].all_day);
}

#[test]
fn all_day_event_outside_window_gives_no_entries() {
    let items = vec![
        all_day_item("Before", "2025-01-01", "2025-01-05"),
        all_day_item("After", "2025-01-07", "2025-01-09"),
    ];
    let tz = Zone::parse("UTC").unwrap();
    let days = group_events_into_days(&items, day_number("2025-01-05"), day_number("2025-01-06"), &tz);
    assert!(days.is_empty());
}

#[test]
fn all_day_entries_come_before_timed_and_days_increase() {
    let items = vec![
        timed_item("Late", "d", "l", "2025-01-06T10:00:00+00:00", "2025-01-06T11:00:00+00:00"),
        timed_item("Early", "d", "l", "2025-01-05T09:00:00+00:00", "2025-01-05T09:30:00+00:00"),
        all_day_item("Holiday", "2025-01-05", "2025-01-06"),
    ];
    let tz = Zone::parse("UTC").unwrap();
    let days = group_events_into_days(&items, day_number("2025-01-05"), day_number("2025-01-06"), &tz);
    assert_eq!(days.len(), 2);
    assert!(days[0].day < days[1].day);
    assert_eq!(days[0].all_day_events[0].summary, "Holiday");
    assert_eq!(days[0].timed_events[0].summary, "Early");
    assert_eq!(days[0].timed_events[0].start, "09:00");
    assert_eq!(days[1].timed_events[0].summary, "Late");
    assert!(days[1].all_day_events.is_empty());
}

#[test]
fn events_without_a_start_are_left_out() {
    let bad_start = timed_item("Bad", "d", "l", "not a time", "2025-01-05T09:00:00+00:00");
    let mut no_start = timed_item("None", "d", "l", "x", "2025-01-05T09:00:00+00:00");
    no_start.start = None;
    let tz = Zone::parse("UTC").unwrap();
    let days = group_events_into_days(&vec![bad_start, no_start], day_number("2025-01-05"), day_number("2025-01-06"), &tz);
    assert!(days.is_empty());
}

#[test]
fn timed_event_without_usable_end_is_listed_with_empty_end() {
    let mut no_end = timed_item("No end", "d", "l", "2025-01-05T09:00:00+00:00", "x");
    no_end.end = None;
    let bad_end = timed_item("Bad end", "d", "l", "2025-01-05T10:00:00+00:00", "later");
    let tz = Zone::parse("UTC").unwrap();
    let days = group_events_into_days(&vec![no_end, bad_end], day_number("2025-01-05"), day_number("2025-01-06"), &tz);
    assert_eq!(days.len(), 1);
    assert_eq!(days[0].timed_events.len(), 2);
    assert_eq!(days[0].timed_events[0].summary, "No end");
    assert_eq!(days[0].timed_events[0].start, "09:00");
    assert_eq!(days[0].timed_events[0].end, "");
    assert_eq!(days[0].timed_events[1].start, "10:00");
    assert_eq!(days[0].timed_events[1].end, "");
}

#[test]
fn missing_summary_and_attendee_emails() {
    let mut item = timed_item("x", "d", "l", "2025-01-05T09:00:00+00:00", "2025-01-05T10:00:00+00:00");
    item.summary = None;
    item.attendees = Some(vec![
        Attendee { email: Some("a@example.com".to_string()), ..Default::default() },
        Attendee { email: None, ..Default::default() },
        Attendee { email: Some("b@example.com".to_string()), ..Default::default() },
    ]);
    let tz = Zone::parse("UTC").unwrap();
    let days = group_events_into_days(&vec![item], day_number("2025-01-05"), day_number("2025-01-05"), &tz);
    let e = &days[0].timed_events[0];
    assert_eq!(e.summary, "(no summary)");
    assert_eq!(e.attendees, vec!["a@example.com".to_string(), "b@example.com".to_string()]);
}

#[test]
fn same_day_events_follow_start_instants() {
    let items = vec![
        timed_item("B", "d", "l", "2025-01-05T12:00:00+00:00", "2025-01-05T13:00:00+00:00"),
        timed_item("A", "d", "l", "2025-01-05T08:00:00+00:00", "2025-01-05T09:00:00+00:00"),
        timed_item("C", "d", "l", "2025-01-05T12:00:00+00:00", "2025-01-05T12:30:00+00:00"),
    ];
    assert_eq!(start_order(&items), vec![1, 0, 2]);
    let tz = Zone::parse("UTC").unwrap();
    let days = group_events_into_days(&items, day_number("2025-01-05"), day_number("2025-01-05"), &tz);
    let names: Vec<&str> = days[0].timed_events.iter().map(|e| e.summary.as_str()).collect();
    assert_eq!(names, vec!["A", "B", "C"]);
}

#[test]
fn intersection_of_date_ranges() {
    let d = day_number("2025-01-05");
    assert_eq!(intersection_days(d - 1, d + 2, d, d + 1), vec![d, d + 1]);
    assert_eq!(intersection_days(d, d, d, d), vec![d]);
    assert!(intersection_days(d, d + 1, d + 2, d + 3).is_empty());
    assert_eq!(format_iso_date(d), "2025-01-05");
}
