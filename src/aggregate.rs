//! The aggregator's work around a fetch: the window sent to the provider,
//! the merge of the calendars' answers, and the body of an event creation.
use crate::date::{
    day_in_range, format_utc_rfc3339, instant_in_range, iso_date_value, local_minute_value, parse_iso_date,
    parse_local_minute, utc_rfc3339_text, zone_local_instant, zone_rfc3339_text, Zone, LAST_DAY,
    SECONDS_PER_DAY,
};
use crate::model::{CalendarEventsResponse, EventDateTime, EventItem, InsertEventRequest};
use vstd::pervasive::VecAdditionalExecFns;
use vstd::prelude::*;

verus! {

/// The instant at which `day` begins in the zone `zone`, when that midnight
/// exists exactly once and lies in chrono's range.
pub open spec fn start_of_day(zone: Seq<char>, day: int) -> Option<int> {
    if day_in_range(day) {
        match zone_local_instant(zone, day * SECONDS_PER_DAY) {
            Some(s) => if instant_in_range(s) { Some(s) } else { None },
            None => None,
        }
    } else {
        None
    }
}

proof fn lemma_midnight_in_range(day: int)
    requires
        day_in_range(day),
    ensures
        instant_in_range(day * SECONDS_PER_DAY),
{
    vstd::arithmetic::div_mod::lemma_div_multiples_vanish(day, 86400);
    assert(day * 86400 == 86400 * day) by (nonlinear_arith);
}

/// The start of `day` in `zone`, as an RFC 3339 UTC date-time.
pub fn to_utc_start_of_start_rfc3339(zone: &Zone, day: i64) -> (r: Option<String>)
    ensures
        r is Some <==> start_of_day(zone.name_view(), day as int) is Some,
        r matches Some(t) ==> t@ == utc_rfc3339_text(start_of_day(zone.name_view(), day as int)->0),
{
    if day < crate::date::FIRST_DAY || day > LAST_DAY {
        return None;
    }
    proof {
        lemma_midnight_in_range(day as int);
    }
    match zone.instant_of_local(day * SECONDS_PER_DAY) {
        Some(s) => {
            if crate::date::FIRST_DAY * SECONDS_PER_DAY <= s && s < (LAST_DAY + 1) * SECONDS_PER_DAY {
                proof {
                    crate::date::lemma_instant_bounds(s as int);
                }
                Some(format_utc_rfc3339(s))
            } else {
                proof {
                    crate::date::lemma_instant_bounds(s as int);
                }
                None
            }
        },
        None => None,
    }
}

/// Why no fetch window could be made.
#[derive(Debug)]
pub enum WindowError {
    /// The date given is not `YYYY-MM-DD`.
    InvalidDate(String),
    /// The window reaches past the last date that can be represented.
    OutOfRange,
    /// A bound of the window has no single midnight in the zone.
    NoMidnight(i64),
}

/// The dates asked for, and the UTC instants sent to the provider: the start
/// of `since` and the start of the day after `until`.
pub struct FetchWindow {
    pub since: i64,
    pub until: i64,
    pub time_min: String,
    pub time_max: String,
}

/// The window `[since, until]` (texts `YYYY-MM-DD`) in `zone`, with the UTC
/// instants that bound the fetch.
pub fn fetch_window(since: &str, until: &str, zone: &Zone) -> (r: Result<FetchWindow, WindowError>)
    ensures
        iso_date_value(since@) is None ==> (r matches Err(WindowError::InvalidDate(t)) && t@ == since@),
        iso_date_value(since@) is Some && iso_date_value(until@) is None ==> (r matches Err(WindowError::InvalidDate(t)) && t@ == until@),
        r is Ok <==> ({
            &&& iso_date_value(since@) matches Some(a)
            &&& iso_date_value(until@) matches Some(b)
            &&& b < LAST_DAY
            &&& start_of_day(zone.name_view(), a) is Some
            &&& start_of_day(zone.name_view(), b + 1) is Some
        }),
        r matches Ok(w) ==> {
            &&& day_in_range(w.since as int)
            &&& day_in_range(w.until as int)
            &&& Some(w.since as int) == iso_date_value(since@)
            &&& Some(w.until as int) == iso_date_value(until@)
            &&& w.time_min@ == utc_rfc3339_text(start_of_day(zone.name_view(), w.since as int)->0)
            &&& w.time_max@ == utc_rfc3339_text(start_of_day(zone.name_view(), w.until + 1)->0)
        },
{
    let first = match parse_iso_date(since) {
        Some(d) => d,
        None => return Err(WindowError::InvalidDate(since.to_owned())),
    };
    let last = match parse_iso_date(until) {
        Some(d) => d,
        None => return Err(WindowError::InvalidDate(until.to_owned())),
    };
    if last >= LAST_DAY {
        return Err(WindowError::OutOfRange);
    }
    let time_min = match to_utc_start_of_start_rfc3339(zone, first) {
        Some(t) => t,
        None => return Err(WindowError::NoMidnight(first)),
    };
    let time_max = match to_utc_start_of_start_rfc3339(zone, last + 1) {
        Some(t) => t,
        None => return Err(WindowError::NoMidnight(last + 1)),
    };
    Ok(FetchWindow { since: first, until: last, time_min, time_max })
}

/// The events of the calendars that answered, in the order of the calendars;
/// `None` stands for a calendar whose fetch failed.
pub open spec fn answered_items(results: Seq<Option<CalendarEventsResponse>>) -> Seq<EventItem>
    decreases results.len(),
{
    if results.len() == 0 {
        Seq::empty()
    } else {
        let before = answered_items(results.drop_last());
        match results.last() {
            Some(resp) => before + resp.items@,
            None => before,
        }
    }
}

/// Merges the answers of several calendars: a failed fetch contributes
/// nothing, the others contribute their events in order.
pub fn merge_calendar_results(results: Vec<Option<CalendarEventsResponse>>) -> (all: Vec<EventItem>)
    ensures
        all@ == answered_items(results@),
{
    let ghost given = results@;
    let mut results = results;
    let mut all: Vec<EventItem> = Vec::new();
    let mut i: usize = 0;
    while i < results.len()
        invariant
            i <= results@.len(),
            results@.len() == given.len(),
            forall|j: int| i <= j < given.len() ==> #[trigger] results@[j] == given[j],
            all@ == answered_items(given.take(i as int)),
        decreases results@.len() - i,
    {
        let mut slot: Option<CalendarEventsResponse> = None;
        results.set_and_swap(i, &mut slot);
        proof {
            assert(given.take(i + 1).drop_last() =~= given.take(i as int));
            assert(slot == given[i as int]);
        }
        match slot {
            Some(mut resp) => {
                all.append(&mut resp.items);
            },
            None => {},
        }
        i = i + 1;
    }
    proof {
        assert(given.take(given.len() as int) =~= given);
    }
    all
}

/// Why an event could not be described to the provider.
#[derive(Debug)]
pub enum EventTimeError {
    /// The text is not `YYYY-MM-DD HH:MM`.
    InvalidDateTime(String),
    /// Clocks in the zone never show that time, or show it twice.
    NotOnClock(String),
}

/// The absolute instant of a local `YYYY-MM-DD HH:MM` reading in `zone`.
pub open spec fn local_time_instant(zone: Seq<char>, text: Seq<char>) -> Option<int> {
    match local_minute_value(text) {
        Some(l) => match zone_local_instant(zone, l) {
            Some(s) => if instant_in_range(s) { Some(s) } else { None },
            None => None,
        },
        None => None,
    }
}

fn event_bound(text: &str, zone: &Zone) -> (r: Result<EventDateTime, EventTimeError>)
    ensures
        r is Ok <==> local_time_instant(zone.name_view(), text@) is Some,
        local_minute_value(text@) is None ==> (r matches Err(EventTimeError::InvalidDateTime(t)) && t@ == text@),
        r matches Ok(b) ==> {
            &&& b.date_time matches Some(dt) && dt@ == zone_rfc3339_text(zone.name_view(), local_time_instant(zone.name_view(), text@)->0)
            &&& b.time_zone matches Some(tz) && tz@ == zone.name_view()
            &&& b.date is None
        },
{
    let local = match parse_local_minute(text) {
        Some(l) => l,
        None => return Err(EventTimeError::InvalidDateTime(text.to_owned())),
    };
    match zone.instant_of_local(local) {
        Some(s) => {
            proof {
                crate::date::lemma_instant_bounds(s as int);
            }
            if crate::date::FIRST_DAY * SECONDS_PER_DAY <= s && s < (LAST_DAY + 1) * SECONDS_PER_DAY {
                Ok(EventDateTime {
                    date_time: Some(zone.format_rfc3339(s)),
                    time_zone: Some(zone.name().to_owned()),
                    date: None,
                })
            } else {
                Err(EventTimeError::NotOnClock(text.to_owned()))
            }
        },
        None => Err(EventTimeError::NotOnClock(text.to_owned())),
    }
}

/// The creation request for an event titled `summary` from `start` to `end`
/// (local `YYYY-MM-DD HH:MM` in `zone`): bounds are RFC 3339 date-times in
/// the zone's local time, tagged with the zone's name.
pub fn build_insert_request(
    summary: &str,
    description: Option<String>,
    start: &str,
    end: &str,
    zone: &Zone,
) -> (r: Result<InsertEventRequest, EventTimeError>)
    ensures
        r is Ok <==> local_time_instant(zone.name_view(), start@) is Some && local_time_instant(zone.name_view(), end@) is Some,
        local_minute_value(start@) is None ==> (r matches Err(EventTimeError::InvalidDateTime(t)) && t@ == start@),
        r matches Ok(req) ==> {
            &&& req.summary@ == summary@
            &&& req.description == description
            &&& req.location is None
            &&& req.attendees is None
            &&& req.start.date_time matches Some(dt) && dt@ == zone_rfc3339_text(zone.name_view(), local_time_instant(zone.name_view(), start@)->0)
            &&& req.end.date_time matches Some(dt) && dt@ == zone_rfc3339_text(zone.name_view(), local_time_instant(zone.name_view(), end@)->0)
            &&& req.start.time_zone matches Some(tz) && tz@ == zone.name_view()
            &&& req.end.time_zone matches Some(tz) && tz@ == zone.name_view()
            &&& req.start.date is None && req.end.date is None
        },
{
    let start_bound = event_bound(start, zone)?;
    let end_bound = event_bound(end, zone)?;
    Ok(InsertEventRequest {
        summary: summary.to_owned(),
        description,
        location: None,
        start: start_bound,
        end: end_bound,
        attendees: None,
    })
}

} // verus!
