//! Calendar dates as day numbers and instants as Unix seconds.
//!
//! A date is the number of days since 1970-01-01 (negative before it); an
//! instant is the number of seconds since 1970-01-01T00:00:00Z. Parsing,
//! formatting and time-zone offsets are taken from chrono and chrono-tz.
use chrono::{DateTime, Datelike, NaiveDate, NaiveDateTime, Offset, TimeDelta, TimeZone};
use chrono_tz::Tz;
use vstd::prelude::*;

verus! {

/// The first date chrono can represent (-262143-01-01), as a day number.
pub const FIRST_DAY: i64 = -96465293;

/// The last date chrono can represent (262142-12-31), as a day number.
pub const LAST_DAY: i64 = 95026236;

pub const SECONDS_PER_DAY: i64 = 86400;

pub open spec fn day_in_range(day: int) -> bool {
    FIRST_DAY <= day <= LAST_DAY
}

/// The date (day number) that holds the instant `secs`, counted in UTC.
pub open spec fn day_of(secs: int) -> int {
    secs / (SECONDS_PER_DAY as int)
}

/// Seconds elapsed since the start of the day that holds `secs`.
pub open spec fn second_of_day(secs: int) -> int {
    secs % (SECONDS_PER_DAY as int)
}

pub open spec fn instant_in_range(secs: int) -> bool {
    day_in_range(day_of(secs))
}

/// An instant lies in range exactly when its seconds lie between the start
/// of the first day and the end of the last.
pub proof fn lemma_instant_bounds(secs: int)
    ensures
        instant_in_range(secs) <==> FIRST_DAY * 86400 <= secs < (LAST_DAY + 1) * 86400,
{
    vstd::arithmetic::div_mod::lemma_fundamental_div_mod(secs, 86400);
    vstd::arithmetic::div_mod::lemma_mod_bound(secs, 86400);
}

/// The dates of the inclusive range `[first, last]`, in increasing order.
pub open spec fn day_range(first: int, last: int) -> Seq<int>
    decreases last - first + 1,
{
    if last < first {
        Seq::empty()
    } else {
        day_range(first, last - 1).push(last)
    }
}

pub open spec fn max_int(a: int, b: int) -> int {
    if a >= b { a } else { b }
}

pub open spec fn min_int(a: int, b: int) -> int {
    if a <= b { a } else { b }
}

pub proof fn lemma_day_range(first: int, last: int)
    ensures
        day_range(first, last).len() == if last < first { 0 } else { last - first + 1 },
        forall|i: int| 0 <= i < day_range(first, last).len() ==> #[trigger] day_range(first, last)[i] == first + i,
    decreases last - first + 1,
{
    if last >= first {
        lemma_day_range(first, last - 1);
    }
}

/// The dates shared by the inclusive ranges `[start1, end1]` and `[start2, end2]`,
/// in increasing order; empty when the ranges do not meet.
pub fn intersection_days(start1: i64, end1: i64, start2: i64, end2: i64) -> (days: Vec<i64>)
    requires
        day_in_range(start1 as int),
        day_in_range(end1 as int),
        day_in_range(start2 as int),
        day_in_range(end2 as int),
    ensures
        days@.map_values(|d: i64| d as int) == day_range(
            max_int(start1 as int, start2 as int),
            min_int(end1 as int, end2 as int),
        ),
{
    let first = if start1 >= start2 { start1 } else { start2 };
    let last = if end1 <= end2 { end1 } else { end2 };
    let mut days: Vec<i64> = Vec::new();
    if first > last {
        proof {
            assert(days@.map_values(|d: i64| d as int) =~= day_range(first as int, last as int));
        }
        return days;
    }
    let mut current: i64 = first;
    while current <= last
        invariant
            first <= current <= last + 1,
            day_in_range(last as int),
            days@.map_values(|d: i64| d as int) == day_range(first as int, current - 1),
        decreases last - current + 1,
    {
        days.push(current);
        proof {
            assert(days@.map_values(|d: i64| d as int) =~= day_range(first as int, current - 1).push(
                current as int,
            ));
        }
        current = current + 1;
    }
    days
}


/// What chrono reads from `text` under the format `%Y-%m-%d`, as a day number.
pub uninterp spec fn iso_date_value(text: Seq<char>) -> Option<int>;

/// How chrono writes the date `day` (its `Display`, `YYYY-MM-DD` for years 0 to 9999).
pub uninterp spec fn iso_date_text(day: int) -> Seq<char>;

/// The instant that chrono reads from an RFC 3339 date-time.
pub uninterp spec fn rfc3339_instant(text: Seq<char>) -> Option<int>;

/// How chrono writes the instant `secs` in RFC 3339, with offset `+00:00`.
pub uninterp spec fn utc_rfc3339_text(secs: int) -> Seq<char>;

/// Whether chrono-tz knows the IANA zone `name`.
pub uninterp spec fn known_zone(name: Seq<char>) -> bool;

/// The offset from UTC, in seconds, that the zone `name` has at the instant `secs`.
pub uninterp spec fn zone_offset_at(name: Seq<char>, secs: int) -> int;

/// Year, month (1 to 12) and day of month (1 to 31) of the date `day`, as chrono gives them.
pub uninterp spec fn date_parts_of(day: int) -> (int, int, int);

/// The date with year `y`, month `m` and day of month `d`, when chrono has one.
pub uninterp spec fn date_from_parts(y: int, m: int, d: int) -> Option<int>;

/// Relies on chrono's `Datelike::{year, month, day}` for `NaiveDate`; a year
/// lies between chrono's `MIN_YEAR` (-262143) and `MAX_YEAR` (262142), a month
/// in 1..=12 and a day of month in 1..=31.
#[verifier::external_body]
pub fn date_parts(day: i64) -> (r: (i32, u32, u32))
    requires
        day_in_range(day as int),
    ensures
        (r.0 as int, r.1 as int, r.2 as int) == date_parts_of(day as int),
        -262143 <= r.0 <= 262142,
        1 <= r.1 <= 12,
        1 <= r.2 <= 31,
{
    let date = NaiveDate::default().checked_add_signed(TimeDelta::days(day)).unwrap();
    (date.year(), date.month(), date.day())
}

/// Relies on chrono's `NaiveDate::from_ymd_opt`; every `NaiveDate` lies
/// between `NaiveDate::MIN` and `NaiveDate::MAX`.
#[verifier::external_body]
pub fn date_from_ymd(y: i32, m: u32, d: u32) -> (r: Option<i64>)
    ensures
        opt_int(r) == date_from_parts(y as int, m as int, d as int),
        r matches Some(v) ==> day_in_range(v as int),
{
    match NaiveDate::from_ymd_opt(y, m, d) {
        Some(date) => Some(date.signed_duration_since(NaiveDate::default()).num_days()),
        None => None,
    }
}

/// The instant at which clocks in the zone `name` read `local` (seconds since
/// 1970-01-01T00:00:00 local time), when they read it exactly once.
pub uninterp spec fn zone_local_instant(name: Seq<char>, local: int) -> Option<int>;

/// How chrono writes the instant `secs` in RFC 3339 as local time of the zone `name`.
pub uninterp spec fn zone_rfc3339_text(name: Seq<char>, secs: int) -> Seq<char>;

/// The wall-clock reading, in seconds since 1970-01-01T00:00:00, that chrono
/// reads from `text` under the format `%Y-%m-%d %H:%M`.
pub uninterp spec fn local_minute_value(text: Seq<char>) -> Option<int>;

pub open spec fn opt_int(o: Option<i64>) -> Option<int> {
    match o {
        Some(v) => Some(v as int),
        None => None,
    }
}

/// Relies on chrono's `NaiveDate::parse_from_str` with `%Y-%m-%d`; every
/// `NaiveDate` lies between `NaiveDate::MIN` and `NaiveDate::MAX`.
#[verifier::external_body]
pub fn parse_iso_date(text: &str) -> (r: Option<i64>)
    ensures
        opt_int(r) == iso_date_value(text@),
        r matches Some(d) ==> day_in_range(d as int),
{
    match NaiveDate::parse_from_str(text, "%Y-%m-%d") {
        Ok(date) => Some(date.signed_duration_since(NaiveDate::default()).num_days()),
        Err(_) => None,
    }
}

/// Relies on chrono's `Display` for `NaiveDate`.
#[verifier::external_body]
pub fn format_iso_date(day: i64) -> (r: String)
    requires
        day_in_range(day as int),
    ensures
        r@ == iso_date_text(day as int),
{
    NaiveDate::default().checked_add_signed(TimeDelta::days(day)).unwrap().to_string()
}

/// Relies on chrono's `DateTime::parse_from_rfc3339`; the UTC value of every
/// `DateTime` lies within the range of `NaiveDateTime`.
#[verifier::external_body]
pub fn parse_rfc3339_instant(text: &str) -> (r: Option<i64>)
    ensures
        opt_int(r) == rfc3339_instant(text@),
        r matches Some(s) ==> instant_in_range(s as int),
{
    match DateTime::parse_from_rfc3339(text) {
        Ok(instant) => Some(instant.timestamp()),
        Err(_) => None,
    }
}

/// Relies on chrono's `DateTime::<Utc>::to_rfc3339`.
#[verifier::external_body]
pub fn format_utc_rfc3339(secs: i64) -> (r: String)
    requires
        instant_in_range(secs as int),
    ensures
        r@ == utc_rfc3339_text(secs as int),
{
    DateTime::from_timestamp(secs, 0).unwrap().to_rfc3339()
}

/// Relies on chrono-tz's `FromStr` for `Tz`.
#[verifier::external_body]
fn zone_name_is_known(name: &str) -> (r: bool)
    ensures
        r == known_zone(name@),
{
    name.parse::<Tz>().is_ok()
}

/// Relies on chrono-tz's `offset_from_utc_datetime`; a chrono `FixedOffset`
/// lies strictly between -86400 and 86400 seconds.
#[verifier::external_body]
fn utc_offset_of_zone(name: &str, secs: i64) -> (r: i32)
    requires
        known_zone(name@),
        instant_in_range(secs as int),
    ensures
        r as int == zone_offset_at(name@, secs as int),
        -SECONDS_PER_DAY < r < SECONDS_PER_DAY,
{
    let zone: Tz = name.parse().unwrap();
    let utc = DateTime::from_timestamp(secs, 0).unwrap().naive_utc();
    zone.offset_from_utc_datetime(&utc).fix().local_minus_utc()
}

/// Relies on chrono's `TimeZone::from_local_datetime` for chrono-tz zones, and
/// on `LocalResult::single`, which is `None` where the reading is skipped or repeated.
#[verifier::external_body]
fn instant_of_local_reading(name: &str, local: i64) -> (r: Option<i64>)
    requires
        known_zone(name@),
        instant_in_range(local as int),
    ensures
        opt_int(r) == zone_local_instant(name@, local as int),
{
    let zone: Tz = name.parse().unwrap();
    let reading = DateTime::from_timestamp(local, 0).unwrap().naive_utc();
    match zone.from_local_datetime(&reading).single() {
        Some(instant) => Some(instant.timestamp()),
        None => None,
    }
}

/// Relies on chrono's `DateTime::<Tz>::to_rfc3339` for chrono-tz zones.
#[verifier::external_body]
fn rfc3339_in_zone(name: &str, secs: i64) -> (r: String)
    requires
        known_zone(name@),
        instant_in_range(secs as int),
    ensures
        r@ == zone_rfc3339_text(name@, secs as int),
{
    let zone: Tz = name.parse().unwrap();
    DateTime::from_timestamp(secs, 0).unwrap().with_timezone(&zone).to_rfc3339()
}

/// Relies on chrono's `NaiveDateTime::parse_from_str` with `%Y-%m-%d %H:%M`;
/// every `NaiveDateTime` lies between `NaiveDateTime::MIN` and `NaiveDateTime::MAX`.
#[verifier::external_body]
pub fn parse_local_minute(text: &str) -> (r: Option<i64>)
    ensures
        opt_int(r) == local_minute_value(text@),
        r matches Some(s) ==> instant_in_range(s as int),
{
    match NaiveDateTime::parse_from_str(text, "%Y-%m-%d %H:%M") {
        Ok(reading) => Some(reading.and_utc().timestamp()),
        Err(_) => None,
    }
}

/// An IANA time zone known to chrono-tz, held by its name.
pub struct Zone {
    name: String,
}

impl Zone {
    #[verifier::type_invariant]
    spec fn known(&self) -> bool {
        known_zone(self.name@)
    }

    pub closed spec fn name_view(&self) -> Seq<char> {
        self.name@
    }

    /// The zone of the given IANA name, when chrono-tz knows it.
    pub fn parse(name: &str) -> (r: Option<Zone>)
        ensures
            r is Some <==> known_zone(name@),
            r matches Some(z) ==> z.name_view() == name@,
    {
        if zone_name_is_known(name) {
            Some(Zone { name: name.to_owned() })
        } else {
            None
        }
    }

    pub fn name(&self) -> (r: &str)
        ensures
            r@ == self.name_view(),
    {
        self.name.as_str()
    }

    /// The offset from UTC, in seconds, of this zone at the instant `secs`.
    pub fn offset_at(&self, secs: i64) -> (r: i32)
        requires
            instant_in_range(secs as int),
        ensures
            r as int == zone_offset_at(self.name_view(), secs as int),
            -SECONDS_PER_DAY < r < SECONDS_PER_DAY,
    {
        proof {
            use_type_invariant(self);
        }
        utc_offset_of_zone(self.name.as_str(), secs)
    }

    /// The instant at which clocks in this zone read `local`, when they read it exactly once.
    pub fn instant_of_local(&self, local: i64) -> (r: Option<i64>)
        requires
            instant_in_range(local as int),
        ensures
            opt_int(r) == zone_local_instant(self.name_view(), local as int),
    {
        proof {
            use_type_invariant(self);
        }
        instant_of_local_reading(self.name.as_str(), local)
    }

    /// The instant `secs` written in RFC 3339 as local time of this zone.
    pub fn format_rfc3339(&self, secs: i64) -> (r: String)
        requires
            instant_in_range(secs as int),
        ensures
            r@ == zone_rfc3339_text(self.name_view(), secs as int),
    {
        proof {
            use_type_invariant(self);
        }
        rfc3339_in_zone(self.name.as_str(), secs)
    }
}

pub open spec fn digit_char(d: int) -> char {
    if d == 0 { '0' }
    else if d == 1 { '1' }
    else if d == 2 { '2' }
    else if d == 3 { '3' }
    else if d == 4 { '4' }
    else if d == 5 { '5' }
    else if d == 6 { '6' }
    else if d == 7 { '7' }
    else if d == 8 { '8' }
    else { '9' }
}

/// `n` (below 100) written with two decimal digits.
pub open spec fn two_digits(n: int) -> Seq<char> {
    seq![digit_char(n / 10), digit_char(n % 10)]
}

/// The `HH:MM` reading of a time that lies `sod` seconds after midnight.
pub open spec fn hh_mm_text(sod: int) -> Seq<char> {
    two_digits(sod / 3600) + seq![':'] + two_digits((sod % 3600) / 60)
}

/// Relies on `String::push`: appends one character.
#[verifier::external_body]
fn push_char(s: &mut String, c: char)
    ensures
        final(s)@ == old(s)@.push(c),
{
    s.push(c);
}

fn decimal_digit(d: u32) -> (c: char)
    requires
        d < 10,
    ensures
        c == digit_char(d as int),
{
    match d {
        0 => '0',
        1 => '1',
        2 => '2',
        3 => '3',
        4 => '4',
        5 => '5',
        6 => '6',
        7 => '7',
        8 => '8',
        _ => '9',
    }
}

/// The time `sod` seconds after midnight as `HH:MM` (seconds dropped).
pub fn format_hh_mm(sod: u32) -> (r: String)
    requires
        sod < SECONDS_PER_DAY,
    ensures
        r@ == hh_mm_text(sod as int),
{
    let hours = sod / 3600;
    let minutes = (sod % 3600) / 60;
    let mut r = String::new();
    push_char(&mut r, decimal_digit(hours / 10));
    push_char(&mut r, decimal_digit(hours % 10));
    push_char(&mut r, ':');
    push_char(&mut r, decimal_digit(minutes / 10));
    push_char(&mut r, decimal_digit(minutes % 10));
    proof {
        assert(r@ =~= hh_mm_text(sod as int));
    }
    r
}

/// The date and the seconds since midnight of the wall-clock reading `local`.
pub fn split_local_seconds(local: i64) -> (r: (i64, u32))
    requires
        day_in_range(day_of(local as int)),
    ensures
        r.0 as int == day_of(local as int),
        r.1 as int == second_of_day(local as int),
        r.1 < SECONDS_PER_DAY,
{
    let base: i64 = FIRST_DAY * SECONDS_PER_DAY;
    let shifted = (local - base) as u64;
    let days = shifted / 86400;
    let sod = shifted % 86400;
    proof {
        let l = local as int;
        let b = base as int;
        assert(b == FIRST_DAY * 86400);
        assert(l - b >= 0) by {
            assert(FIRST_DAY <= l / 86400);
        }
        vstd::arithmetic::div_mod::lemma_hoist_over_denominator(l - b, FIRST_DAY as int, 86400);
        assert(l - b + (FIRST_DAY as int) * 86400 == l);
        vstd::arithmetic::div_mod::lemma_mod_multiples_vanish(-FIRST_DAY as int, l, 86400);
        assert(86400 * (-FIRST_DAY as int) + l == l - b);
    }
    ((days as i64) + FIRST_DAY, sod as u32)
}


} // verus!
