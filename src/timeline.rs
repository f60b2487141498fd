//! Bucketing of calendar events into a chronological sequence of days.
//!
//! Events are ordered by start instant (events without one first), all-day
//! events are spread over every date that their `[start, end)` span shares
//! with the requested window, and timed events land on the local date of
//! their start in the display zone.
use crate::date::{
    day_in_range, day_of, day_range, format_hh_mm, format_iso_date, hh_mm_text, intersection_days, iso_date_text,
    iso_date_value, max_int, min_int, opt_int, parse_iso_date, second_of_day, split_local_seconds,
    zone_offset_at, Zone, FIRST_DAY,
};
use crate::model::{Attendee, EventItem};
use vstd::string::StringExecFns;
use vstd::prelude::*;

verus! {

/// Start keys compare with "no start" before every instant.
pub open spec fn key_before(a: Option<int>, b: Option<int>) -> bool {
    match (a, b) {
        (None, Some(_)) => true,
        (Some(x), Some(y)) => x < y,
        _ => false,
    }
}

/// Whether the event at index `i` comes before the one at `j` in the
/// timeline's order: by start instant, ties kept in input order.
pub open spec fn runs_before(evs: Seq<EventItem>, i: int, j: int) -> bool {
    ||| key_before(evs[i].start_instant(), evs[j].start_instant())
    ||| (evs[i].start_instant() == evs[j].start_instant() && i < j)
}

/// `order` lists every index of `evs` once, in the timeline's order.
pub open spec fn is_start_order(evs: Seq<EventItem>, order: Seq<int>) -> bool {
    &&& order.len() == evs.len()
    &&& forall|p: int| 0 <= p < order.len() ==> 0 <= #[trigger] order[p] < evs.len()
    &&& forall|x: int| 0 <= x < evs.len() ==> #[trigger] order.contains(x)
    &&& forall|p: int, q: int|
        0 <= p < q < order.len() ==> runs_before(evs, #[trigger] order[p], #[trigger] order[q])
}

pub open spec fn usize_seq(v: Seq<usize>) -> Seq<int> {
    v.map_values(|u: usize| u as int)
}

fn key_not_after(a: Option<i64>, b: Option<i64>) -> (r: bool)
    ensures
        r == !key_before(opt_int(b), opt_int(a)),
{
    match (a, b) {
        (None, _) => true,
        (Some(_), None) => false,
        (Some(x), Some(y)) => x <= y,
    }
}

/// The indices of `events` in the timeline's order: by start instant, events
/// without a start instant first, ties kept in input order.
pub fn start_order(events: &Vec<EventItem>) -> (order: Vec<usize>)
    ensures
        is_start_order(events@, usize_seq(order@)),
{
    let n = events.len();
    let mut keys: Vec<Option<i64>> = Vec::new();
    let mut i: usize = 0;
    while i < n
        invariant
            n == events@.len(),
            i <= n,
            keys@.len() == i,
            forall|x: int| 0 <= x < i ==> opt_int(#[trigger] keys@[x]) == events@[x].start_instant(),
        decreases n - i,
    {
        keys.push(events[i].start_time_utc());
        i = i + 1;
    }
    let mut order: Vec<usize> = Vec::new();
    let mut i: usize = 0;
    while i < n
        invariant
            n == events@.len(),
            i <= n,
            keys@.len() == n,
            forall|x: int| 0 <= x < n ==> opt_int(#[trigger] keys@[x]) == events@[x].start_instant(),
            order@.len() == i,
            forall|p: int| 0 <= p < order@.len() ==> (#[trigger] order@[p] as int) < i,
            forall|x: int| 0 <= x < i ==> usize_seq(order@).contains(x),
            forall|p: int, q: int|
                0 <= p < q < order@.len() ==> runs_before(
                    events@,
                    #[trigger] order@[p] as int,
                    #[trigger] order@[q] as int,
                ),
        decreases n - i,
    {
        let mut p: usize = 0;
        while p < order.len() && key_not_after(keys[order[p]], keys[i])
            invariant
                n == events@.len(),
                i < n,
                keys@.len() == n,
                p <= order@.len(),
                forall|p: int| 0 <= p < order@.len() ==> (#[trigger] order@[p] as int) < i,
                forall|q: int|
                    0 <= q < p ==> !key_before(
                        opt_int(keys@[i as int]),
                        opt_int(keys@[#[trigger] order@[q] as int]),
                    ),
            decreases order@.len() - p,
        {
            p = p + 1;
        }
        let ghost old_order = order@;
        order.insert(p, i);
        proof {
            assert(order@ == old_order.insert(p as int, i));
            assert forall|a: int, b: int| 0 <= a < b < order@.len() implies runs_before(
                events@,
                #[trigger] order@[a] as int,
                #[trigger] order@[b] as int,
            ) by {
                if b < p {
                    assert(order@[a] == old_order[a] && order@[b] == old_order[b]);
                } else if b == p {
                    assert(order@[a] == old_order[a]);
                    assert(!key_before(opt_int(keys@[i as int]), opt_int(keys@[old_order[a] as int])));
                } else if a == p {
                    assert(order@[b] == old_order[b - 1]);
                    assert(key_before(opt_int(keys@[i as int]), opt_int(keys@[old_order[p as int] as int])));
                    if b - 1 > p {
                        assert(runs_before(events@, old_order[p as int] as int, old_order[b - 1] as int));
                    }
                } else if a < p {
                    assert(order@[a] == old_order[a] && order@[b] == old_order[b - 1]);
                } else {
                    assert(order@[a] == old_order[a - 1] && order@[b] == old_order[b - 1]);
                }
            }
            assert forall|x: int| 0 <= x < i + 1 implies usize_seq(order@).contains(x) by {
                if x == i {
                    assert(usize_seq(order@)[p as int] == x);
                } else {
                    assert(usize_seq(old_order).contains(x));
                    let w = choose|w: int| 0 <= w < old_order.len() && usize_seq(old_order)[w] == x;
                    if w < p {
                        assert(usize_seq(order@)[w] == x);
                    } else {
                        assert(usize_seq(order@)[w + 1] == x);
                    }
                }
            }
        }
        i = i + 1;
    }
    proof {
        assert forall|x: int| 0 <= x < n implies #[trigger] usize_seq(order@).contains(x) by {}
    }
    order
}


/// An event as it is shown under a day.
#[derive(Debug)]
pub struct Event {
    pub summary: String,
    pub start: String,
    pub end: String,
    pub location: Option<String>,
    pub description: Option<String>,
    pub attendees: Vec<String>,
    pub html_link: Option<String>,
    pub all_day: bool,
}

pub ghost struct EventView {
    pub summary: Seq<char>,
    pub start: Seq<char>,
    pub end: Seq<char>,
    pub location: Option<Seq<char>>,
    pub description: Option<Seq<char>>,
    pub attendees: Seq<Seq<char>>,
    pub html_link: Option<Seq<char>>,
    pub all_day: bool,
}

pub open spec fn opt_text(o: Option<String>) -> Option<Seq<char>> {
    match o {
        Some(s) => Some(s@),
        None => None,
    }
}

pub open spec fn texts(v: Seq<String>) -> Seq<Seq<char>> {
    v.map_values(|s: String| s@)
}

impl View for Event {
    type V = EventView;

    open spec fn view(&self) -> EventView {
        EventView {
            summary: self.summary@,
            start: self.start@,
            end: self.end@,
            location: opt_text(self.location),
            description: opt_text(self.description),
            attendees: texts(self.attendees@),
            html_link: opt_text(self.html_link),
            all_day: self.all_day,
        }
    }
}

pub open spec fn events_view(v: Seq<Event>) -> Seq<EventView> {
    v.map_values(|e: Event| e@)
}

/// One date of the timeline with the events shown under it.
#[derive(Debug)]
pub struct Day {
    /// The date as a day number (days since 1970-01-01).
    pub day: i64,
    /// The date as `YYYY-MM-DD`.
    pub date: String,
    pub all_day_events: Vec<Event>,
    pub timed_events: Vec<Event>,
}

/// The e-mail addresses of the attendees that have one, in order.
pub open spec fn emails_of(attendees: Seq<Attendee>) -> Seq<Seq<char>>
    decreases attendees.len(),
{
    if attendees.len() == 0 {
        Seq::empty()
    } else {
        let before = emails_of(attendees.drop_last());
        match attendees.last().email {
            Some(e) => before.push(e@),
            None => before,
        }
    }
}

pub open spec fn attendee_emails(attendees: Option<Vec<Attendee>>) -> Seq<Seq<char>> {
    match attendees {
        Some(v) => emails_of(v@),
        None => Seq::empty(),
    }
}

pub open spec fn summary_text(e: EventItem) -> Seq<char> {
    match e.summary {
        Some(s) => s@,
        None => "(no summary)"@,
    }
}

/// The `[start, end)` dates of an all-day event, when both bounds are dates.
pub open spec fn all_day_span(e: EventItem) -> Option<(int, int)> {
    if e.spec_is_all_day() {
        match e.end {
            Some(b) => match b.date {
                Some(t) => match (iso_date_value(e.start->0.date->0@), iso_date_value(t@)) {
                    (Some(a), Some(z)) => Some((a, z)),
                    _ => None,
                },
                None => None,
            },
            None => None,
        }
    } else {
        None
    }
}

/// Whether an all-day event is shown on `day` for the window `[since, until]`:
/// `day` lies both in the event's `[start, end)` span and in the window.
pub open spec fn all_day_on(e: EventItem, since: int, until: int, day: int) -> bool {
    match all_day_span(e) {
        Some((a, z)) => max_int(a, since) <= day <= min_int(z - 1, until),
        None => false,
    }
}

/// The local date of a timed event's start in the zone `zone`, and the local
/// time of its start as seconds after midnight. Only the start instant is
/// needed; it must lie on a date that chrono can represent.
pub open spec fn timed_slot(e: EventItem, zone: Seq<char>) -> Option<(int, int)> {
    if e.spec_is_all_day() {
        None
    } else {
        match e.start_instant() {
            Some(s) => {
                let ls = s + zone_offset_at(zone, s);
                if day_in_range(day_of(ls)) {
                    Some((day_of(ls), second_of_day(ls)))
                } else {
                    None
                }
            },
            None => None,
        }
    }
}

/// The local time of a timed event's end, as seconds after midnight, when
/// its end is an instant on a representable date.
pub open spec fn timed_end(e: EventItem, zone: Seq<char>) -> Option<int> {
    match e.end_instant() {
        Some(t) => {
            let lt = t + zone_offset_at(zone, t);
            if day_in_range(day_of(lt)) {
                Some(second_of_day(lt))
            } else {
                None
            }
        },
        None => None,
    }
}

/// The end time shown for a timed event: `HH:MM`, or empty when the event
/// has no usable end.
pub open spec fn end_text(end_sod: Option<int>) -> Seq<char> {
    match end_sod {
        Some(x) => hh_mm_text(x),
        None => Seq::empty(),
    }
}

pub open spec fn timed_on(e: EventItem, zone: Seq<char>, day: int) -> bool {
    timed_slot(e, zone) matches Some(slot) && slot.0 == day
}

/// Whether the event is shown on `day`, in the list of all-day events
/// (`all_day`) or in that of timed events.
pub open spec fn shown_on(
    e: EventItem,
    zone: Seq<char>,
    since: int,
    until: int,
    day: int,
    all_day: bool,
) -> bool {
    if all_day {
        all_day_on(e, since, until, day)
    } else {
        timed_on(e, zone, day)
    }
}

pub open spec fn shown_on_some_list(e: EventItem, zone: Seq<char>, since: int, until: int, day: int) -> bool {
    all_day_on(e, since, until, day) || timed_on(e, zone, day)
}

pub open spec fn rendered_all_day(e: EventItem) -> EventView {
    let (first, end) = all_day_span(e)->0;
    EventView {
        summary: summary_text(e),
        start: iso_date_text(first),
        end: iso_date_text(end),
        location: opt_text(e.location),
        description: opt_text(e.description),
        attendees: attendee_emails(e.attendees),
        html_link: opt_text(e.html_link),
        all_day: true,
    }
}

pub open spec fn rendered_timed(e: EventItem, zone: Seq<char>) -> EventView {
    let (day, start_sod) = timed_slot(e, zone)->0;
    EventView {
        summary: summary_text(e),
        start: hh_mm_text(start_sod),
        end: end_text(timed_end(e, zone)),
        location: opt_text(e.location),
        description: opt_text(e.description),
        attendees: attendee_emails(e.attendees),
        html_link: opt_text(e.html_link),
        all_day: false,
    }
}

pub open spec fn rendered(e: EventItem, zone: Seq<char>, all_day: bool) -> EventView {
    if all_day {
        rendered_all_day(e)
    } else {
        rendered_timed(e, zone)
    }
}

/// Where an event goes in the timeline.
pub enum Placement {
    /// An all-day event spanning `[start_day, end_day)`, shown on `first..=last`.
    AllDay { start_day: i64, end_day: i64, first: i64, last: i64 },
    /// A timed event shown on `day`, from `start_sod` to `end_sod` (when it
    /// has a usable end) seconds after local midnight.
    Timed { day: i64, start_sod: u32, end_sod: Option<u32> },
    /// An event that is shown nowhere.
    Unplaced,
}

pub open spec fn placement_of_spec(p: Placement, e: EventItem, zone: Seq<char>, since: int, until: int) -> bool {
    match p {
        Placement::AllDay { start_day, end_day, first, last } => {
            &&& all_day_span(e) == Some((start_day as int, end_day as int))
            &&& first == max_int(start_day as int, since)
            &&& last == min_int(end_day - 1, until)
            &&& day_in_range(start_day as int)
            &&& day_in_range(end_day as int)
        },
        Placement::Timed { day, start_sod, end_sod } => {
            &&& all_day_span(e) is None
            &&& timed_slot(e, zone) == Some((day as int, start_sod as int))
            &&& timed_end(e, zone) == match end_sod {
                Some(x) => Some(x as int),
                None => None::<int>,
            }
            &&& day_in_range(day as int)
        },
        Placement::Unplaced => all_day_span(e) is None && timed_slot(e, zone) is None,
    }
}

fn date_of_bound(b: &Option<crate::model::EventDateTime>) -> (r: Option<i64>)
    ensures
        r matches Some(d) ==> day_in_range(d as int),
        match *b {
            Some(edt) => match edt.date {
                Some(t) => opt_int(r) == iso_date_value(t@),
                None => r is None,
            },
            None => r is None,
        },
{
    match b {
        Some(edt) => match &edt.date {
            Some(t) => parse_iso_date(t.as_str()),
            None => None,
        },
        None => None,
    }
}

fn local_end(e: &EventItem, zone: &Zone) -> (r: Option<u32>)
    ensures
        timed_end(*e, zone.name_view()) == match r {
            Some(x) => Some(x as int),
            None => None::<int>,
        },
        r matches Some(x) ==> x < 86400,
{
    match e.end_time_utc() {
        Some(t) => {
            let lt = t + zone.offset_at(t) as i64;
            proof {
                crate::date::lemma_instant_bounds(lt as int);
            }
            if FIRST_DAY * 86400 <= lt && lt < (crate::date::LAST_DAY + 1) * 86400 {
                let (_, end_sod) = split_local_seconds(lt);
                Some(end_sod)
            } else {
                None
            }
        },
        None => None,
    }
}

/// Where `e` goes in the timeline of the window `[since, until]` shown in `zone`.
pub fn placement(e: &EventItem, zone: &Zone, since: i64, until: i64) -> (p: Placement)
    requires
        day_in_range(since as int),
        day_in_range(until as int),
    ensures
        placement_of_spec(p, *e, zone.name_view(), since as int, until as int),
{
    if e.is_all_day() {
        let start = date_of_bound(&e.start);
        let end = date_of_bound(&e.end);
        match (start, end) {
            (Some(a), Some(z)) => {
                let first = if a >= since { a } else { since };
                let last = if z - 1 <= until { z - 1 } else { until };
                Placement::AllDay { start_day: a, end_day: z, first, last }
            },
            _ => Placement::Unplaced,
        }
    } else {
        match e.start_time_utc() {
            Some(s) => {
                let ls = s + zone.offset_at(s) as i64;
                proof {
                    crate::date::lemma_instant_bounds(ls as int);
                }
                if FIRST_DAY * 86400 <= ls && ls < (crate::date::LAST_DAY + 1) * 86400 {
                    let (day, start_sod) = split_local_seconds(ls);
                    let end_sod = local_end(e, zone);
                    Placement::Timed { day, start_sod, end_sod }
                } else {
                    Placement::Unplaced
                }
            },
            None => Placement::Unplaced,
        }
    }
}

fn copy_text(o: &Option<String>) -> (r: Option<String>)
    ensures
        opt_text(r) == opt_text(*o),
{
    match o {
        Some(s) => Some(s.clone()),
        None => None,
    }
}

fn attendee_emails_of(attendees: &Option<Vec<Attendee>>) -> (r: Vec<String>)
    ensures
        texts(r@) == attendee_emails(*attendees),
{
    let mut r: Vec<String> = Vec::new();
    match attendees {
        None => {
            proof {
                assert(texts(r@) =~= Seq::<Seq<char>>::empty());
            }
        },
        Some(v) => {
            let mut i: usize = 0;
            proof {
                assert(texts(r@) =~= emails_of(v@.take(0)));
            }
            while i < v.len()
                invariant
                    i <= v@.len(),
                    texts(r@) == emails_of(v@.take(i as int)),
                decreases v@.len() - i,
            {
                proof {
                    assert(v@.take(i + 1).drop_last() =~= v@.take(i as int));
                }
                match &v[i].email {
                    Some(e) => {
                        r.push(e.clone());
                        proof {
                            assert(texts(r@) =~= emails_of(v@.take(i as int)).push(e@));
                        }
                    },
                    None => {},
                }
                i = i + 1;
            }
            proof {
                assert(v@.take(v@.len() as int) =~= v@);
            }
        },
    }
    r
}

fn summary_of(e: &EventItem) -> (r: String)
    ensures
        r@ == summary_text(*e),
{
    match &e.summary {
        Some(s) => s.clone(),
        None => String::from_str("(no summary)"),
    }
}

/// The event `e`, placed by `p`, as it is shown under a day.
fn render(e: &EventItem, p: &Placement, Ghost(zone): Ghost<Seq<char>>, Ghost(since): Ghost<int>, Ghost(until): Ghost<int>) -> (r: Event)
    requires
        placement_of_spec(*p, *e, zone, since, until),
        !(p is Unplaced),
    ensures
        r@ == rendered(*e, zone, p is AllDay),
{
    let (start, end, all_day) = match p {
        Placement::AllDay { start_day, end_day, .. } => (format_iso_date(*start_day), format_iso_date(*end_day), true),
        Placement::Timed { start_sod, end_sod, .. } => (
            format_hh_mm(*start_sod),
            match end_sod {
                Some(x) => format_hh_mm(*x),
                None => String::new(),
            },
            false,
        ),
        Placement::Unplaced => (String::new(), String::new(), false),
    };
    Event {
        summary: summary_of(e),
        start,
        end,
        location: copy_text(&e.location),
        description: copy_text(&e.description),
        attendees: attendee_emails_of(&e.attendees),
        html_link: copy_text(&e.html_link),
        all_day,
    }
}

fn shows_on(p: &Placement, day: i64, all_day: bool, Ghost(e): Ghost<EventItem>, Ghost(zone): Ghost<Seq<char>>, Ghost(since): Ghost<int>, Ghost(until): Ghost<int>) -> (r: bool)
    requires
        placement_of_spec(*p, e, zone, since, until),
    ensures
        r == shown_on(e, zone, since, until, day as int, all_day),
        r ==> !(p is Unplaced) && (p is AllDay <==> all_day),
{
    match p {
        Placement::AllDay { first, last, .. } => all_day && *first <= day && day <= *last,
        Placement::Timed { day: d, .. } => !all_day && *d == day,
        Placement::Unplaced => false,
    }
}

/// `out` shows, in the timeline's order, the events of `evs` that go to the
/// list `all_day` of `day`; `src` gives the index of each one.
pub open spec fn listing(
    evs: Seq<EventItem>,
    zone: Seq<char>,
    since: int,
    until: int,
    day: int,
    all_day: bool,
    src: Seq<int>,
    out: Seq<EventView>,
) -> bool {
    &&& src.len() == out.len()
    &&& forall|p: int| #![trigger src[p]]
        0 <= p < src.len() ==> {
            &&& 0 <= src[p] < evs.len()
            &&& shown_on(evs[src[p]], zone, since, until, day, all_day)
            &&& out[p] == rendered(evs[src[p]], zone, all_day)
        }
    &&& forall|x: int|
        0 <= x < evs.len() && shown_on(evs[x], zone, since, until, day, all_day) ==> #[trigger] src.contains(x)
    &&& forall|p: int, q: int| 0 <= p < q < src.len() ==> runs_before(evs, #[trigger] src[p], #[trigger] src[q])
}

/// `out` is exactly the list `all_day` of `day` in the timeline of `evs`.
pub open spec fn lists_exactly(
    evs: Seq<EventItem>,
    zone: Seq<char>,
    since: int,
    until: int,
    day: int,
    all_day: bool,
    out: Seq<EventView>,
) -> bool {
    exists|src: Seq<int>| #[trigger] listing(evs, zone, since, until, day, all_day, src, out)
}

pub open spec fn placements_fit(
    placements: Seq<Placement>,
    evs: Seq<EventItem>,
    zone: Seq<char>,
    since: int,
    until: int,
) -> bool {
    &&& placements.len() == evs.len()
    &&& forall|x: int| 0 <= x < evs.len() ==> placement_of_spec(#[trigger] placements[x], evs[x], zone, since, until)
}

fn day_entries(
    events: &Vec<EventItem>,
    order: &Vec<usize>,
    placements: &Vec<Placement>,
    day: i64,
    all_day: bool,
    Ghost(zone): Ghost<Seq<char>>,
    Ghost(since): Ghost<int>,
    Ghost(until): Ghost<int>,
) -> (r: Vec<Event>)
    requires
        is_start_order(events@, usize_seq(order@)),
        placements_fit(placements@, events@, zone, since, until),
    ensures
        lists_exactly(events@, zone, since, until, day as int, all_day, events_view(r@)),
{
    let n = order.len();
    let mut r: Vec<Event> = Vec::new();
    let ghost mut src: Seq<int> = Seq::empty();
    let ghost mut pos: Seq<int> = Seq::empty();
    let mut q: usize = 0;
    while q < n
        invariant
            n == order@.len(),
            q <= n,
            is_start_order(events@, usize_seq(order@)),
            placements_fit(placements@, events@, zone, since, until),
            src.len() == r@.len(),
            pos.len() == src.len(),
            forall|p: int| #![trigger src[p]]
                0 <= p < src.len() ==> {
                    &&& 0 <= src[p] < events@.len()
                    &&& shown_on(events@[src[p]], zone, since, until, day as int, all_day)
                    &&& r@[p]@ == rendered(events@[src[p]], zone, all_day)
                },
            forall|p: int| #![trigger pos[p]] 0 <= p < pos.len() ==> 0 <= pos[p] < q && src[p] == order@[pos[p]] as int,
            forall|p: int, p2: int| 0 <= p < p2 < pos.len() ==> #[trigger] pos[p] < #[trigger] pos[p2],
            forall|w: int|
                0 <= w < q && shown_on(events@[order@[w] as int], zone, since, until, day as int, all_day)
                    ==> src.contains(#[trigger] order@[w] as int),
        decreases n - q,
    {
        let x = order[q];
        let ghost old_src = src;
        proof {
            assert(usize_seq(order@)[q as int] == x as int);
        }
        if shows_on(&placements[x], day, all_day, Ghost(events@[x as int]), Ghost(zone), Ghost(since), Ghost(until)) {
            let ev = render(&events[x], &placements[x], Ghost(zone), Ghost(since), Ghost(until));
            r.push(ev);
            proof {
                src = src.push(x as int);
                pos = pos.push(q as int);
                assert(src[src.len() - 1] == x as int);
            }
        }
        proof {
            assert forall|w: int|
                0 <= w < q + 1 && shown_on(events@[order@[w] as int], zone, since, until, day as int, all_day)
                    implies src.contains(#[trigger] order@[w] as int) by {
                if w == q {
                    assert(src[src.len() - 1] == x as int);
                } else {
                    assert(old_src.contains(order@[w] as int));
                    let i = choose|i: int| 0 <= i < old_src.len() && old_src[i] == order@[w] as int;
                    assert(src[i] == old_src[i]);
                }
            }
        }
        q = q + 1;
    }
    proof {
        let out = events_view(r@);
        assert forall|x: int|
            0 <= x < events@.len() && shown_on(events@[x], zone, since, until, day as int, all_day)
                implies #[trigger] src.contains(x) by {
            assert(usize_seq(order@).contains(x));
            let w = choose|w: int| 0 <= w < usize_seq(order@).len() && usize_seq(order@)[w] == x;
            assert(order@[w] as int == x);
        }
        assert forall|p: int, p2: int| 0 <= p < p2 < src.len() implies runs_before(events@, #[trigger] src[p], #[trigger] src[p2]) by {
            assert(pos[p] < pos[p2]);
            assert(usize_seq(order@)[pos[p]] == src[p]);
            assert(usize_seq(order@)[pos[p2]] == src[p2]);
        }
        assert(listing(events@, zone, since, until, day as int, all_day, src, out));
    }
    r
}


/// Whether some event among the first `n` of `evs` is shown on `day`.
pub open spec fn shown_among(evs: Seq<EventItem>, zone: Seq<char>, since: int, until: int, n: int, day: int) -> bool {
    exists|x: int| 0 <= x < n && #[trigger] shown_on_some_list(evs[x], zone, since, until, day)
}

pub open spec fn strictly_increasing(s: Seq<i64>) -> bool {
    forall|p: int, q: int| 0 <= p < q < s.len() ==> #[trigger] s[p] < #[trigger] s[q]
}

pub open spec fn day_keys(days: Seq<Day>) -> Seq<int> {
    days.map_values(|d: Day| d.day as int)
}

fn insert_key(keys: &mut Vec<i64>, k: i64)
    requires
        strictly_increasing(old(keys)@),
        day_in_range(k as int),
        forall|q: int| 0 <= q < old(keys)@.len() ==> day_in_range(#[trigger] old(keys)@[q] as int),
    ensures
        strictly_increasing(final(keys)@),
        forall|q: int| 0 <= q < final(keys)@.len() ==> day_in_range(#[trigger] final(keys)@[q] as int),
        forall|d: i64| #[trigger] final(keys)@.contains(d) <==> (old(keys)@.contains(d) || d == k),
{
    let mut p: usize = 0;
    while p < keys.len() && keys[p] < k
        invariant
            p <= keys@.len(),
            keys@ == old(keys)@,
            strictly_increasing(keys@),
            forall|q: int| 0 <= q < p ==> #[trigger] keys@[q] < k,
        decreases keys@.len() - p,
    {
        p = p + 1;
    }
    if p < keys.len() && keys[p] == k {
        proof {
            assert(keys@[p as int] == k);
            assert forall|d: i64| keys@.contains(d) <==> (old(keys)@.contains(d) || d == k) by {
                if d == k {
                    assert(keys@[p as int] == d);
                }
            }
        }
        return;
    }
    let ghost before = keys@;
    keys.insert(p, k);
    proof {
        assert(before == old(keys)@);
        assert(keys@ == before.insert(p as int, k));
        assert forall|q: int| 0 <= q < keys@.len() implies day_in_range(#[trigger] keys@[q] as int) by {
            if q > p {
                assert(keys@[q] == before[q - 1]);
            }
        }
        assert forall|a: int, b: int| 0 <= a < b < keys@.len() implies #[trigger] keys@[a] < #[trigger] keys@[b] by {
            if b < p {
            } else if b == p {
            } else if a == p {
                assert(before[p as int] > k);
                if b - 1 > p {
                    assert(before[p as int] < before[b - 1]);
                }
            } else if a < p {
            } else {
            }
        }
        assert forall|d: i64| #[trigger] keys@.contains(d) <==> (old(keys)@.contains(d) || d == k) by {
            if keys@.contains(d) {
                let w = choose|w: int| 0 <= w < keys@.len() && keys@[w] == d;
                if w < p {
                    assert(before[w] == d);
                } else if w > p {
                    assert(before[w - 1] == d);
                }
            }
            if before.contains(d) {
                let w = choose|w: int| 0 <= w < before.len() && before[w] == d;
                if w < p {
                    assert(keys@[w] == d);
                } else {
                    assert(keys@[w + 1] == d);
                }
            }
            if d == k {
                assert(keys@[p as int] == d);
            }
        }
    }
}

fn insert_days(keys: &mut Vec<i64>, ds: &Vec<i64>, first: i64, last: i64)
    requires
        first <= last,
        day_in_range(first as int),
        day_in_range(last as int),
        ds@.map_values(|d: i64| d as int) == day_range(first as int, last as int),
        strictly_increasing(old(keys)@),
        forall|q: int| 0 <= q < old(keys)@.len() ==> day_in_range(#[trigger] old(keys)@[q] as int),
    ensures
        strictly_increasing(final(keys)@),
        forall|q: int| 0 <= q < final(keys)@.len() ==> day_in_range(#[trigger] final(keys)@[q] as int),
        forall|d: i64| #[trigger] final(keys)@.contains(d) <==> (old(keys)@.contains(d) || (first <= d <= last)),
{
    let ghost before = keys@;
    proof {
        crate::date::lemma_day_range(first as int, last as int);
        assert(ds@.len() == ds@.map_values(|d: i64| d as int).len());
        assert forall|i: int| 0 <= i < ds@.len() implies #[trigger] ds@[i] == first + i by {
            assert(ds@.map_values(|d: i64| d as int)[i] == day_range(first as int, last as int)[i]);
        }
    }
    let mut j: usize = 0;
    while j < ds.len()
        invariant
            j <= ds@.len(),
            ds@.len() == last - first + 1,
            forall|i: int| 0 <= i < ds@.len() ==> #[trigger] ds@[i] == first + i,
            day_in_range(first as int),
            day_in_range(last as int),
            before == old(keys)@,
            strictly_increasing(keys@),
            forall|q: int| 0 <= q < keys@.len() ==> day_in_range(#[trigger] keys@[q] as int),
            forall|d: i64| #[trigger] keys@.contains(d) <==> (before.contains(d) || (first <= d < first + j)),
        decreases ds@.len() - j,
    {
        insert_key(keys, ds[j]);
        j = j + 1;
    }
}

/// The dates on which at least one event is shown, in increasing order.
fn shown_days(
    events: &Vec<EventItem>,
    placements: &Vec<Placement>,
    since: i64,
    until: i64,
    Ghost(zone): Ghost<Seq<char>>,
) -> (keys: Vec<i64>)
    requires
        day_in_range(since as int),
        day_in_range(until as int),
        placements_fit(placements@, events@, zone, since as int, until as int),
    ensures
        strictly_increasing(keys@),
        forall|q: int| 0 <= q < keys@.len() ==> day_in_range(#[trigger] keys@[q] as int),
        forall|d: i64|
            keys@.contains(d) <==> shown_among(events@, zone, since as int, until as int, events@.len() as int, d as int),
{
    let n = placements.len();
    let mut keys: Vec<i64> = Vec::new();
    let mut x: usize = 0;
    while x < n
        invariant
            n == events@.len(),
            x <= n,
            day_in_range(since as int),
            day_in_range(until as int),
            placements_fit(placements@, events@, zone, since as int, until as int),
            strictly_increasing(keys@),
            forall|q: int| 0 <= q < keys@.len() ==> day_in_range(#[trigger] keys@[q] as int),
            forall|d: i64| keys@.contains(d) <==> shown_among(events@, zone, since as int, until as int, x as int, d as int),
        decreases n - x,
    {
        let ghost before = keys@;
        let ghost e = events@[x as int];
        match &placements[x] {
            Placement::AllDay { start_day, end_day, first, last } => {
                if *first > *last {
                    proof {
                        assert forall|d: i64| keys@.contains(d) <==> (before.contains(d) || placement_shows(placements@[x as int], d as int)) by {}
                    }
                } else {
                    let ds = intersection_days(*start_day, *end_day - 1, since, until);
                    insert_days(&mut keys, &ds, *first, *last);
                    proof {
                        assert forall|d: i64| keys@.contains(d) <==> (before.contains(d) || placement_shows(placements@[x as int], d as int)) by {
                            assert(keys@.contains(d) <==> (before.contains(d) || (*first <= d <= *last)));
                        }
                    }
                }
            },
            Placement::Timed { day, .. } => {
                insert_key(&mut keys, *day);
            },
            Placement::Unplaced => {},
        }
        assert(forall|d: i64| keys@.contains(d) <==> (before.contains(d) || placement_shows(placements@[x as int], d as int)));
        proof {
            assert forall|d: i64| keys@.contains(d) <==> shown_among(events@, zone, since as int, until as int, x + 1, d as int) by {
                lemma_placement_shows(placements@[x as int], e, zone, since as int, until as int, d as int);
                assert(keys@.contains(d) <==> (before.contains(d) || placement_shows(placements@[x as int], d as int)));
                assert(before.contains(d) <==> shown_among(events@, zone, since as int, until as int, x as int, d as int));
                if shown_among(events@, zone, since as int, until as int, x + 1, d as int) {
                    let w = choose|w: int| 0 <= w < x + 1 && #[trigger] shown_on_some_list(events@[w], zone, since as int, until as int, d as int);
                    if w < x {
                        assert(shown_among(events@, zone, since as int, until as int, x as int, d as int));
                    }
                }
                if shown_on_some_list(e, zone, since as int, until as int, d as int) {
                    assert(shown_on_some_list(events@[x as int], zone, since as int, until as int, d as int));
                }
                if shown_among(events@, zone, since as int, until as int, x as int, d as int) {
                    let w = choose|w: int| 0 <= w < x && #[trigger] shown_on_some_list(events@[w], zone, since as int, until as int, d as int);
                    assert(shown_on_some_list(events@[w], zone, since as int, until as int, d as int));
                }
            }
        }
        x = x + 1;
    }
    keys
}

/// Groups `events` into the days of the window `[since, until]` (day numbers)
/// shown in `zone`.
///
/// Each date that shows at least one event gets one `Day`, in increasing
/// order of date. An all-day event is listed, under `all_day_events`, on each
/// date that its `[start, end)` span shares with the window, showing its own
/// start and end dates; a timed event is listed, under `timed_events`, on the
/// local date of its start in `zone`, showing local `HH:MM` start and end
/// times. Within a list, events keep the order of their start instants
/// (events without one first), ties in input order. Events whose bounds do not
/// parse are left out.
pub fn group_events_into_days(events: &Vec<EventItem>, since: i64, until: i64, zone: &Zone) -> (days: Vec<Day>)
    requires
        day_in_range(since as int),
        day_in_range(until as int),
    ensures
        forall|i: int, j: int| 0 <= i < j < days@.len() ==> #[trigger] days@[i].day < #[trigger] days@[j].day,
        forall|d: int|
            day_keys(days@).contains(d) <==> shown_among(
                events@,
                zone.name_view(),
                since as int,
                until as int,
                events@.len() as int,
                d,
            ),
        forall|i: int| #![trigger days@[i]]
            0 <= i < days@.len() ==> {
                &&& days@[i].date@ == iso_date_text(days@[i].day as int)
                &&& lists_exactly(
                    events@,
                    zone.name_view(),
                    since as int,
                    until as int,
                    days@[i].day as int,
                    true,
                    events_view(days@[i].all_day_events@),
                )
                &&& lists_exactly(
                    events@,
                    zone.name_view(),
                    since as int,
                    until as int,
                    days@[i].day as int,
                    false,
                    events_view(days@[i].timed_events@),
                )
                &&& forall|p: int| 0 <= p < days@[i].all_day_events@.len() ==> (#[trigger] days@[i].all_day_events@[p]).all_day
                &&& forall|p: int| 0 <= p < days@[i].timed_events@.len() ==> !(#[trigger] days@[i].timed_events@[p]).all_day
            },
{
    let ghost zname = zone.name_view();
    let order = start_order(events);
    let n = events.len();
    let mut placements: Vec<Placement> = Vec::new();
    let mut x: usize = 0;
    while x < n
        invariant
            n == events@.len(),
            x <= n,
            day_in_range(since as int),
            day_in_range(until as int),
            zname == zone.name_view(),
            placements@.len() == x,
            forall|w: int| 0 <= w < x ==> placement_of_spec(#[trigger] placements@[w], events@[w], zname, since as int, until as int),
        decreases n - x,
    {
        placements.push(placement(&events[x], zone, since, until));
        x = x + 1;
    }
    let keys = shown_days(events, &placements, since, until, Ghost(zname));
    let mut days: Vec<Day> = Vec::new();
    let mut j: usize = 0;
    while j < keys.len()
        invariant
            j <= keys@.len(),
            is_start_order(events@, usize_seq(order@)),
            placements_fit(placements@, events@, zname, since as int, until as int),
            forall|q: int| 0 <= q < keys@.len() ==> day_in_range(#[trigger] keys@[q] as int),
            days@.len() == j,
            forall|i: int| #![trigger days@[i]]
                0 <= i < j ==> {
                    &&& days@[i].day == keys@[i]
                    &&& days@[i].date@ == iso_date_text(days@[i].day as int)
                    &&& lists_exactly(events@, zname, since as int, until as int, days@[i].day as int, true, events_view(days@[i].all_day_events@))
                    &&& lists_exactly(events@, zname, since as int, until as int, days@[i].day as int, false, events_view(days@[i].timed_events@))
                },
        decreases keys@.len() - j,
    {
        let day = keys[j];
        let all_day_events = day_entries(events, &order, &placements, day, true, Ghost(zname), Ghost(since as int), Ghost(until as int));
        let timed_events = day_entries(events, &order, &placements, day, false, Ghost(zname), Ghost(since as int), Ghost(until as int));
        days.push(Day { day, date: format_iso_date(day), all_day_events, timed_events });
        j = j + 1;
    }
    proof {
        assert forall|i: int| #![trigger days@[i]] 0 <= i < days@.len() implies {
            &&& forall|p: int| 0 <= p < days@[i].all_day_events@.len() ==> (#[trigger] days@[i].all_day_events@[p]).all_day
            &&& forall|p: int| 0 <= p < days@[i].timed_events@.len() ==> !(#[trigger] days@[i].timed_events@[p]).all_day
        } by {
            lemma_listed_kind(events@, zname, since as int, until as int, days@[i].day as int, true, events_view(days@[i].all_day_events@));
            lemma_listed_kind(events@, zname, since as int, until as int, days@[i].day as int, false, events_view(days@[i].timed_events@));
            assert forall|p: int| 0 <= p < days@[i].all_day_events@.len() implies (#[trigger] days@[i].all_day_events@[p]).all_day by {
                assert(events_view(days@[i].all_day_events@)[p] == days@[i].all_day_events@[p]@);
            }
            assert forall|p: int| 0 <= p < days@[i].timed_events@.len() implies !(#[trigger] days@[i].timed_events@[p]).all_day by {
                assert(events_view(days@[i].timed_events@)[p] == days@[i].timed_events@[p]@);
            }
        }
        assert forall|i: int| 0 <= i < days@.len() implies #[trigger] day_keys(days@)[i] == keys@[i] as int by {}
        assert forall|d: int| day_keys(days@).contains(d) <==> shown_among(events@, zname, since as int, until as int, n as int, d) by {
            if day_keys(days@).contains(d) {
                let w = choose|w: int| 0 <= w < day_keys(days@).len() && day_keys(days@)[w] == d;
                assert(keys@.contains(keys@[w]));
            }
            if shown_among(events@, zname, since as int, until as int, n as int, d) {
                let w = choose|w: int| 0 <= w < n && #[trigger] shown_on_some_list(events@[w], zname, since as int, until as int, d);
                let dd = d as i64;
                assert(shown_among(events@, zname, since as int, until as int, n as int, dd as int)) by {
                    lemma_shown_day_in_range(events@[w], zname, since as int, until as int, d);
                }
                assert(keys@.contains(dd));
                let k = choose|k: int| 0 <= k < keys@.len() && keys@[k] == dd;
                assert(day_keys(days@)[k] == d);
            }
        }
    }
    days
}

pub open spec fn placement_shows(p: Placement, d: int) -> bool {
    match p {
        Placement::AllDay { first, last, .. } => first <= d <= last,
        Placement::Timed { day, .. } => d == day,
        Placement::Unplaced => false,
    }
}

proof fn lemma_placement_shows(p: Placement, e: EventItem, zone: Seq<char>, since: int, until: int, d: int)
    requires
        placement_of_spec(p, e, zone, since, until),
    ensures
        shown_on_some_list(e, zone, since, until, d) <==> placement_shows(p, d),
{
}

proof fn lemma_shown_day_in_range(e: EventItem, zone: Seq<char>, since: int, until: int, d: int)
    requires
        day_in_range(since),
        day_in_range(until),
        shown_on_some_list(e, zone, since, until, d),
    ensures
        day_in_range(d),
        d == (d as i64) as int,
{
}


/// Every entry of a list of a day is marked as all-day exactly when the list
/// is that of all-day events.
pub proof fn lemma_listed_kind(
    evs: Seq<EventItem>,
    zone: Seq<char>,
    since: int,
    until: int,
    day: int,
    all_day: bool,
    out: Seq<EventView>,
)
    requires
        lists_exactly(evs, zone, since, until, day, all_day, out),
    ensures
        forall|p: int| 0 <= p < out.len() ==> (#[trigger] out[p]).all_day == all_day,
{
    let src = choose|src: Seq<int>| #[trigger] listing(evs, zone, since, until, day, all_day, src, out);
    assert forall|p: int| 0 <= p < out.len() implies (#[trigger] out[p]).all_day == all_day by {
        assert(out[p] == rendered(evs[src[p]], zone, all_day));
    }
}

/// No date lies both in the `[start, end)` span of the all-day event `e` and
/// in the window `[since, until]`.
pub open spec fn span_disjoint_from_window(e: EventItem, since: int, until: int) -> bool {
    match all_day_span(e) {
        Some((a, z)) => min_int(z - 1, until) < max_int(a, since),
        None => true,
    }
}

/// An all-day event whose `[start, end)` span shares no date with the window
/// `[since, until]` is in no list of any day: it contributes no entry.
pub proof fn lemma_disjoint_all_day_event_has_no_entries(
    evs: Seq<EventItem>,
    zone: Seq<char>,
    since: int,
    until: int,
    day: int,
    all_day: bool,
    src: Seq<int>,
    out: Seq<EventView>,
    x: int,
)
    requires
        0 <= x < evs.len(),
        evs[x].spec_is_all_day(),
        span_disjoint_from_window(evs[x], since, until),
        listing(evs, zone, since, until, day, all_day, src, out),
    ensures
        !src.contains(x),
{
    if src.contains(x) {
        let p = choose|p: int| 0 <= p < src.len() && src[p] == x;
        assert(shown_on(evs[src[p]], zone, since, until, day, all_day));
        match all_day_span(evs[x]) {
            Some((a, z)) => {
                assert(!(a <= day < z && since <= day <= until));
            },
            None => {},
        }
    }
}

/// A timed event with a start instant is listed, among timed events, on the
/// local date in `zone` of that instant and on no other date, and never among
/// all-day events. It shows the local start time as `HH:MM`, and its local
/// end time as `HH:MM` when it has an end instant (nothing otherwise).
pub proof fn lemma_timed_event_local_date(e: EventItem, zone: Seq<char>, since: int, until: int, day: int, s: int)
    requires
        !e.spec_is_all_day(),
        e.start_instant() == Some(s),
        day_in_range(day_of(s + zone_offset_at(zone, s))),
    ensures
        shown_on(e, zone, since, until, day, false) <==> day == day_of(s + zone_offset_at(zone, s)),
        !shown_on(e, zone, since, until, day, true),
        rendered(e, zone, false).start == hh_mm_text(second_of_day(s + zone_offset_at(zone, s))),
        !rendered(e, zone, false).all_day,
        forall|t: int|
            e.end_instant() == Some(t) && day_in_range(day_of(t + zone_offset_at(zone, t)))
                ==> #[trigger] rendered(e, zone, false).end == hh_mm_text(second_of_day(t + zone_offset_at(zone, t))),
        e.end_instant() is None ==> rendered(e, zone, false).end == Seq::<char>::empty(),
{
}

} // verus!
