//! The command line's choice of dates, and the named date ranges
//! (today, this week, this month, next week) relative to the clock.
use crate::auth::unix_seconds_now;
use crate::date::{
    date_from_parts, date_from_ymd, date_parts, date_parts_of, day_in_range, day_of, split_local_seconds,
    zone_offset_at, Zone, FIRST_DAY, LAST_DAY, SECONDS_PER_DAY,
};
use vstd::prelude::*;

verus! {

/// A named range of dates relative to today.
#[derive(Debug, Clone, Copy, PartialEq, Eq, Structural)]
pub enum GetEventDuration {
    Today,
    ThisWeek,
    ThisMonth,
    NextWeek,
}

/// The subcommands of the program.
#[derive(Debug, Clone, Copy, PartialEq, Eq, Structural)]
pub enum Commands {
    /// Run as a protocol server on standard input and output.
    Mcp,
}

/// The command line, as parsed.
#[derive(Debug)]
pub struct Cli {
    pub command: Option<Commands>,
    pub since: Option<String>,
    pub until: Option<String>,
    pub today: bool,
    pub this_week: bool,
    pub this_month: bool,
    pub next_week: bool,
    pub version: bool,
}

/// Which dates the command line asks for.
#[derive(Debug)]
pub enum FetchMode {
    Shortcut(GetEventDuration),
    Range(String, String),
}

/// The dates asked for: an explicit `--since`/`--until` pair first, then the
/// first shortcut flag set, in the order today, this week, this month, next
/// week; today when nothing is given.
pub fn determine_duration_or_range(cli: &Cli) -> (r: FetchMode)
    ensures
        match (cli.since, cli.until) {
            (Some(s), Some(u)) => r matches FetchMode::Range(a, b) && a@ == s@ && b@ == u@,
            _ => r matches FetchMode::Shortcut(d) && d == (if cli.today {
                GetEventDuration::Today
            } else if cli.this_week {
                GetEventDuration::ThisWeek
            } else if cli.this_month {
                GetEventDuration::ThisMonth
            } else if cli.next_week {
                GetEventDuration::NextWeek
            } else {
                GetEventDuration::Today
            }),
        },
{
    if let (Some(since), Some(until)) = (&cli.since, &cli.until) {
        FetchMode::Range(since.clone(), until.clone())
    } else if cli.today {
        FetchMode::Shortcut(GetEventDuration::Today)
    } else if cli.this_week {
        FetchMode::Shortcut(GetEventDuration::ThisWeek)
    } else if cli.this_month {
        FetchMode::Shortcut(GetEventDuration::ThisMonth)
    } else if cli.next_week {
        FetchMode::Shortcut(GetEventDuration::NextWeek)
    } else {
        FetchMode::Shortcut(GetEventDuration::Today)
    }
}

/// A source of the current instant, in Unix seconds.
pub trait Clock {
    fn now(&self) -> i64;
}

/// The system clock.
pub struct RealClock;

impl Clock for RealClock {
    fn now(&self) -> i64 {
        let secs = unix_seconds_now();
        if secs <= i64::MAX as u64 {
            secs as i64
        } else {
            i64::MAX
        }
    }
}

/// Days from the Monday of a date's week to the date; 1970-01-01 was a Thursday.
pub open spec fn days_from_monday(day: int) -> int {
    (day + 3) % 7
}

/// The local date, in the zone `zone`, of the instant `now`.
pub open spec fn local_date(zone: Seq<char>, now: int) -> int {
    day_of(now + zone_offset_at(zone, now))
}

/// The first and last dates of the named range around `today`, when they exist.
pub open spec fn duration_days(today: int, duration: GetEventDuration) -> Option<(int, int)> {
    match duration {
        GetEventDuration::Today => Some((today, today)),
        GetEventDuration::ThisWeek => Some((today - days_from_monday(today), today - days_from_monday(today) + 6)),
        GetEventDuration::NextWeek => Some((
            today + 7 - days_from_monday(today),
            today + 7 - days_from_monday(today) + 6,
        )),
        GetEventDuration::ThisMonth => {
            let (y, m, d) = date_parts_of(today);
            let next = if m == 12 { date_from_parts(y + 1, 1, 1) } else { date_from_parts(y, m + 1, 1) };
            match (date_from_parts(y, m, 1), next) {
                (Some(first), Some(n)) => if day_in_range(n - 1) {
                    Some((first, n - 1))
                } else {
                    None
                },
                _ => None,
            }
        },
    }
}

/// The named range around the local date, in `zone`, of the instant `now`:
/// none when that date lies within a week of the representable dates' ends.
pub open spec fn duration_at(zone: Seq<char>, now: int, duration: GetEventDuration) -> Option<(int, int)> {
    if crate::date::instant_in_range(now) && FIRST_DAY + 7 <= local_date(zone, now) <= LAST_DAY - 14 {
        duration_days(local_date(zone, now), duration)
    } else {
        None
    }
}

pub open spec fn opt_pair(r: Option<(i64, i64)>) -> Option<(int, int)> {
    match r {
        Some((a, b)) => Some((a as int, b as int)),
        None => None,
    }
}

/// The named range around the local date, in `zone`, of the instant `now`
/// (Unix seconds), as day numbers.
pub fn duration_around(zone: &Zone, now: i64, duration: GetEventDuration) -> (r: Option<(i64, i64)>)
    ensures
        opt_pair(r) == duration_at(zone.name_view(), now as int, duration),
        r matches Some((a, b)) ==> day_in_range(a as int) && day_in_range(b as int),
{
    proof {
        crate::date::lemma_instant_bounds(now as int);
    }
    if now < FIRST_DAY * SECONDS_PER_DAY || now >= (LAST_DAY + 1) * SECONDS_PER_DAY {
        return None;
    }
    let local = now + zone.offset_at(now) as i64;
    proof {
        lemma_day_bounds(local as int);
    }
    if local < (FIRST_DAY + 7) * SECONDS_PER_DAY || local >= (LAST_DAY - 13) * SECONDS_PER_DAY {
        return None;
    }
    let (today, _) = split_local_seconds(local);
    range_around(today, duration)
}

/// The named range around the date `today`.
fn range_around(today: i64, duration: GetEventDuration) -> (r: Option<(i64, i64)>)
    requires
        FIRST_DAY + 7 <= today <= LAST_DAY - 14,
    ensures
        opt_pair(r) == duration_days(today as int, duration),
        r matches Some((a, b)) ==> day_in_range(a as int) && day_in_range(b as int),
{
    let shifted = (today - FIRST_DAY) as u64;
    let from_monday = ((shifted % 7 + FIRST_DAY_FROM_MONDAY) % 7) as i64;
    proof {
        lemma_weekday(today as int);
    }
    match duration {
        GetEventDuration::Today => Some((today, today)),
        GetEventDuration::ThisWeek => Some((today - from_monday, today - from_monday + 6)),
        GetEventDuration::NextWeek => Some((today + 7 - from_monday, today + 7 - from_monday + 6)),
        GetEventDuration::ThisMonth => {
            let (y, m, _) = date_parts(today);
            let first = date_from_ymd(y, m, 1);
            let next = if m == 12 {
                date_from_ymd(y + 1, 1, 1)
            } else {
                date_from_ymd(y, m + 1, 1)
            };
            match (first, next) {
                (Some(f), Some(n)) => {
                    if n - 1 < FIRST_DAY {
                        return None;
                    }
                    Some((f, n - 1))
                },
                _ => None,
            }
        },
    }
}

/// Computes named date ranges from a clock.
pub struct EventDurationCalculator<C: Clock> {
    pub clock: C,
}

impl<C: Clock> EventDurationCalculator<C> {
    pub fn new(clock: C) -> (r: Self)
        ensures
            r.clock == clock,
    {
        EventDurationCalculator { clock }
    }

    /// The first and last dates (day numbers) of the named range around
    /// today's local date in `zone`, as `duration_around` gives them for the
    /// clock's reading.
    pub fn get_duration(&self, zone: &Zone, duration: GetEventDuration) -> (r: Option<(i64, i64)>)
        ensures
            exists|now: int| opt_pair(r) == #[trigger] duration_at(zone.name_view(), now, duration),
            r matches Some((a, b)) ==> day_in_range(a as int) && day_in_range(b as int),
    {
        duration_around(zone, self.clock.now(), duration)
    }
}

/// Days from Monday to the first representable date.
pub const FIRST_DAY_FROM_MONDAY: u64 = 2;

proof fn lemma_weekday(today: int)
    requires
        FIRST_DAY <= today,
    ensures
        (((today - FIRST_DAY) % 7) + FIRST_DAY_FROM_MONDAY) % 7 == days_from_monday(today),
{
    let b = today - FIRST_DAY;
    assert(days_from_monday(FIRST_DAY as int) == FIRST_DAY_FROM_MONDAY);
    vstd::arithmetic::div_mod::lemma_add_mod_noop(FIRST_DAY + 3, b, 7);
    vstd::arithmetic::div_mod::lemma_add_mod_noop(b, FIRST_DAY_FROM_MONDAY as int, 7);
    vstd::arithmetic::div_mod::lemma_mod_twice(b, 7);
    assert(FIRST_DAY + 3 + b == today + 3);
}

proof fn lemma_day_bounds(secs: int)
    ensures
        FIRST_DAY + 7 <= day_of(secs) <= LAST_DAY - 14 <==> (FIRST_DAY + 7) * 86400 <= secs < (LAST_DAY - 13) * 86400,
{
    vstd::arithmetic::div_mod::lemma_fundamental_div_mod(secs, 86400);
    vstd::arithmetic::div_mod::lemma_mod_bound(secs, 86400);
}

} // verus!
