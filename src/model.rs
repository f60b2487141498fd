//! Records of the calendar provider's events API, as plain data.
use crate::date::{parse_rfc3339_instant, rfc3339_instant};
use vstd::prelude::*;

verus! {

/// A page of events returned by the provider's list request.
#[derive(Clone, Debug, Default)]
pub struct CalendarEventsResponse {
    pub kind: Option<String>,
    pub etag: Option<String>,
    pub summary: Option<String>,
    pub description: Option<String>,
    pub updated: Option<String>,
    pub time_zone: Option<String>,
    pub access_role: Option<String>,
    pub default_reminders: Option<Vec<DefaultReminder>>,
    pub next_page_token: Option<String>,
    pub items: Vec<EventItem>,
}

#[derive(Clone, Debug)]
pub struct DefaultReminder {
    pub method: Option<String>,
    pub minutes: Option<i64>,
}

/// One event as the provider describes it.
#[derive(Clone, Debug, Default)]
pub struct EventItem {
    pub kind: Option<String>,
    pub etag: Option<String>,
    pub id: Option<String>,
    pub status: Option<String>,
    pub html_link: Option<String>,
    pub created: Option<String>,
    pub updated: Option<String>,
    pub summary: Option<String>,
    pub description: Option<String>,
    pub location: Option<String>,
    pub recurring_event_id: Option<String>,
    pub original_start_time: Option<EventDateTime>,
    pub attendees: Option<Vec<Attendee>>,
    pub hangout_link: Option<String>,
    pub conference_data: Option<ConferenceData>,
    pub guests_can_modify: Option<bool>,
    pub attachments: Option<Vec<Attachment>>,
    pub creator: Option<CalendarUser>,
    pub organizer: Option<CalendarUser>,
    pub start: Option<EventDateTime>,
    pub end: Option<EventDateTime>,
    pub i_cal_uid: Option<String>,
    pub sequence: Option<i64>,
    pub reminders: Option<Reminders>,
    pub event_type: Option<String>,
}

#[derive(Clone, Debug, Default)]
pub struct Attendee {
    pub email: Option<String>,
    pub organizer: Option<bool>,
    pub self_field: Option<bool>,
    pub resource: Option<bool>,
    pub optional: Option<bool>,
    pub display_name: Option<String>,
    pub comment: Option<String>,
    pub response_status: Option<String>,
}

#[derive(Clone, Debug)]
pub struct ConferenceData {
    pub entry_points: Option<Vec<EntryPoint>>,
    pub conference_solution: Option<ConferenceSolution>,
    pub conference_id: Option<String>,
}

#[derive(Clone, Debug)]
pub struct EntryPoint {
    pub entry_point_type: Option<String>,
    pub uri: Option<String>,
    pub label: Option<String>,
    pub pin: Option<String>,
    pub region_code: Option<String>,
}

#[derive(Clone, Debug)]
pub struct ConferenceSolution {
    pub key: Option<ConferenceSolutionKey>,
    pub name: Option<String>,
    pub icon_uri: Option<String>,
}

#[derive(Clone, Debug)]
pub struct ConferenceSolutionKey {
    pub key_type: Option<String>,
}

#[derive(Clone, Debug)]
pub struct Attachment {
    pub file_url: Option<String>,
    pub title: Option<String>,
    pub mime_type: Option<String>,
    pub icon_link: Option<String>,
    pub file_id: Option<String>,
}

#[derive(Clone, Debug)]
pub struct CalendarUser {
    pub email: Option<String>,
    pub is_self: Option<bool>,
}

#[derive(Clone, Debug)]
pub struct Reminders {
    pub use_default: Option<bool>,
}

/// A bound of an event: a date for an all-day event, a date-time otherwise.
#[derive(Clone, Debug, Default)]
pub struct EventDateTime {
    pub date_time: Option<String>,
    pub time_zone: Option<String>,
    pub date: Option<String>,
}

/// The provider's reply to an event creation.
#[derive(Clone, Debug)]
pub struct CreatedEventResponse {
    pub id: Option<String>,
    pub html_link: Option<String>,
}

/// The body of an event creation request.
#[derive(Clone, Debug)]
pub struct InsertEventRequest {
    pub summary: String,
    pub description: Option<String>,
    pub location: Option<String>,
    pub start: EventDateTime,
    pub end: EventDateTime,
    pub attendees: Option<Vec<Attendee>>,
}

/// The instant that an RFC 3339 `date_time` of a bound denotes, if it has one.
pub open spec fn bound_instant(b: Option<EventDateTime>) -> Option<int> {
    match b {
        Some(edt) => match edt.date_time {
            Some(text) => rfc3339_instant(text@),
            None => None,
        },
        None => None,
    }
}

fn instant_of_bound(b: &Option<EventDateTime>) -> (r: Option<i64>)
    ensures
        crate::date::opt_int(r) == bound_instant(*b),
        r matches Some(s) ==> crate::date::instant_in_range(s as int),
{
    match b {
        Some(edt) => match &edt.date_time {
            Some(text) => parse_rfc3339_instant(text.as_str()),
            None => None,
        },
        None => None,
    }
}

impl EventItem {
    pub open spec fn spec_is_all_day(&self) -> bool {
        self.start matches Some(s) && s.date is Some
    }

    pub open spec fn start_instant(&self) -> Option<int> {
        bound_instant(self.start)
    }

    pub open spec fn end_instant(&self) -> Option<int> {
        bound_instant(self.end)
    }

    /// Whether the event's start is a date rather than a date-time.
    pub fn is_all_day(&self) -> (r: bool)
        ensures
            r == self.spec_is_all_day(),
    {
        if let Some(start) = &self.start {
            if start.date.is_some() {
                return true;
            }
        }
        false
    }

    /// The start instant, in Unix seconds, when the start is a valid RFC 3339 date-time.
    pub fn start_time_utc(&self) -> (r: Option<i64>)
        ensures
            crate::date::opt_int(r) == self.start_instant(),
            r matches Some(s) ==> crate::date::instant_in_range(s as int),
    {
        instant_of_bound(&self.start)
    }

    /// The end instant, in Unix seconds, when the end is a valid RFC 3339 date-time.
    pub fn end_time_utc(&self) -> (r: Option<i64>)
        ensures
            crate::date::opt_int(r) == self.end_instant(),
            r matches Some(s) ==> crate::date::instant_in_range(s as int),
    {
        instant_of_bound(&self.end)
    }
}

} // verus!
