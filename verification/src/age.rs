//! Human friendly ages of items: "3 hours ago" and the like.
use vstd::prelude::*;
use vstd::string::*;
use chrono::{DateTime, Utc};
use std::time::{Duration, SystemTime, UNIX_EPOCH};
use crate::text::{decimal, push_decimal_i64};

verus! {

/// The earliest UNIX time, in seconds, that `chrono` can represent
/// (January 1 of the year -262143, that is 262144 BCE).
pub open spec fn min_utc_seconds() -> int {
    -8334601228800
}

/// The latest UNIX time, in seconds, that `chrono` can represent
/// (December 31, 262142 CE, 23:59:59).
pub open spec fn max_utc_seconds() -> int {
    8210266876799
}

/// Whether `time` names a representable instant.
pub open spec fn representable(time: int) -> bool {
    min_utc_seconds() <= time <= max_utc_seconds()
}

/// `DateTime::<Utc>::from_timestamp(secs, 0)`, read back as its UNIX
/// timestamp: `None` exactly when the time lies outside the range of dates
/// that `chrono` represents, else the same number of seconds.
#[verifier::external_body]
fn utc_from_timestamp(secs: i64) -> (r: Option<i64>)
    ensures
        r is Some <==> representable(secs as int),
        r matches Some(t) ==> t == secs,
{
    DateTime::<Utc>::from_timestamp(secs, 0).map(|then| then.timestamp())
}

#[verifier::external_type_specification]
#[verifier::external_body]
pub struct ExSystemTime(std::time::SystemTime);

/// `std::time::SystemTime::now`: the system clock. Nothing is claimed of
/// the time it reads.
#[verifier::external_body]
fn system_time_now() -> (r: SystemTime) {
    SystemTime::now()
}

/// `SystemTime::duration_since(UNIX_EPOCH)`, `None` when `t` lies before
/// the epoch. Nothing is claimed of the duration, which depends on `t`.
#[verifier::external_body]
fn since_unix_epoch(t: &SystemTime) -> (r: Option<Duration>) {
    t.duration_since(UNIX_EPOCH).ok()
}

/// `Duration::as_secs`: the whole seconds of a duration.
#[verifier::external_body]
fn whole_seconds(d: &Duration) -> (r: u64) {
    d.as_secs()
}

/// `Duration::subsec_nanos`: the nanoseconds past the whole seconds of a
/// duration, which the documentation gives as always below one billion.
#[verifier::external_body]
fn subsec_nanos(d: &Duration) -> (r: u32)
    ensures
        r < 1_000_000_000,
{
    d.subsec_nanos()
}

/// Whether a clock reading is one the clock can give: none, or whole
/// seconds since the UNIX epoch and nanoseconds below one billion.
pub open spec fn clock_ok(reading: Option<(u64, u32)>) -> bool {
    reading matches Some(t) ==> t.1 < 1_000_000_000
}

/// Reads the system clock as whole seconds since the UNIX epoch and the
/// nanoseconds past them; `None` when it reads before the epoch. What the
/// clock reads is not claimed.
pub fn clock_reading() -> (r: Option<(u64, u32)>)
    ensures
        clock_ok(r),
{
    let now = system_time_now();
    match since_unix_epoch(&now) {
        Some(d) => Some((whole_seconds(&d), subsec_nanos(&d))),
        None => None,
    }
}

/// The whole seconds, rounded toward zero, of the time from `then` (a whole
/// second) to `now` (a second and a fraction of `now_nanos`), as `chrono`
/// subtracts two instants: day count and time of day apart, a leap second
/// of `now` counted only when `now` is earlier in its day than `then`.
pub open spec fn delta_seconds(now: int, now_nanos: int, then: int) -> int {
    let days = now / 86400 - then / 86400;
    let tod_now = now % 86400;
    let tod_then = then % 86400;
    let secs = if tod_now < tod_then && now_nanos >= 1_000_000_000 {
        tod_now - tod_then - 1
    } else {
        tod_now - tod_then
    };
    let total = days * 86400 + secs + now_nanos / 1_000_000_000;
    let frac = now_nanos % 1_000_000_000;
    if total < 0 && frac > 0 {
        total + 1
    } else {
        total
    }
}

/// Division rounded toward zero, as Rust's `/` divides integers.
pub open spec fn div_trunc(a: int, b: int) -> int {
    if a >= 0 {
        a / b
    } else {
        -((-a) / b)
    }
}

/// The age of an instant `then` at the instant `now` and `now_nanos`
/// nanoseconds, as `chrono` gives it: the two instants made with
/// `DateTime::<Utc>::from_timestamp`, subtracted, and the difference read
/// with `TimeDelta::num_days`, `num_hours` and `num_minutes`. The contract
/// claims that these are the whole days, hours and minutes, rounded toward
/// zero, of the whole seconds `delta_seconds` between the instants, as
/// `TimeDelta::num_seconds` reads the difference.
#[verifier::external_body]
fn chrono_age(now: i64, now_nanos: u32, then: i64) -> (r: Option<(i64, i64, i64)>)
    requires
        representable(now as int),
        representable(then as int),
        now_nanos < 1_000_000_000,
    ensures
        r == Some((
            div_trunc(delta_seconds(now as int, now_nanos as int, then as int), 86400) as i64,
            div_trunc(delta_seconds(now as int, now_nanos as int, then as int), 3600) as i64,
            div_trunc(delta_seconds(now as int, now_nanos as int, then as int), 60) as i64,
        )),
{
    match (DateTime::<Utc>::from_timestamp(now, now_nanos), DateTime::<Utc>::from_timestamp(then, 0)) {
        (Some(a), Some(b)) => {
            let d = a - b;
            Some((d.num_days(), d.num_hours(), d.num_minutes()))
        },
        _ => None,
    }
}

/// The label for whole `days`, `hours` and `minutes` of an age.
pub open spec fn parts_label(days: int, hours: int, minutes: int) -> Seq<char> {
    if days == 0 && hours == 0 && minutes == 1 {
        "1 minute ago"@
    } else if days == 0 && hours == 0 {
        decimal(minutes) + " minutes ago"@
    } else if days == 0 && hours == 1 {
        "1 hour ago"@
    } else if days == 0 {
        decimal(hours) + " hours ago"@
    } else if days == 1 {
        "1 day ago"@
    } else {
        decimal(days) + " days ago"@
    }
}

/// The label for an age of `elapsed` seconds: whole minutes while under an
/// hour, whole hours while under a day, whole days after that.
pub open spec fn age_label_text(elapsed: int) -> Seq<char> {
    parts_label(div_trunc(elapsed, 86400), div_trunc(elapsed, 3600), div_trunc(elapsed, 60))
}

fn div_toward_zero(a: i64, b: i64) -> (r: i64)
    requires
        b > 1,
    ensures
        r == div_trunc(a as int, b as int),
{
    if a >= 0 {
        a / b
    } else {
        let magnitude: i128 = -(a as i128);
        let q: i128 = magnitude / (b as i128);
        assert(q <= magnitude);
        (-q) as i64
    }
}

/// The friendly label for whole `days`, `hours` and `minutes` of an age.
fn label_of_parts(days: i64, hours: i64, minutes: i64) -> (r: String)
    ensures
        r@ == parts_label(days as int, hours as int, minutes as int),
{
    if days == 0 && hours == 0 && minutes == 1 {
        String::from_str("1 minute ago")
    } else if days == 0 && hours == 0 {
        let mut s = String::new();
        push_decimal_i64(&mut s, minutes);
        s.append(" minutes ago");
        s
    } else if days == 0 && hours == 1 {
        String::from_str("1 hour ago")
    } else if days == 0 {
        let mut s = String::new();
        push_decimal_i64(&mut s, hours);
        s.append(" hours ago");
        s
    } else if days == 1 {
        String::from_str("1 day ago")
    } else {
        let mut s = String::new();
        push_decimal_i64(&mut s, days);
        s.append(" days ago");
        s
    }
}

/// The friendly label for an age of `elapsed` seconds.
pub fn age_label(elapsed: i64) -> (r: String)
    ensures
        r@ == age_label_text(elapsed as int),
{
    label_of_parts(div_toward_zero(elapsed, 86400), div_toward_zero(elapsed, 3600), div_toward_zero(elapsed, 60))
}

/// The label of an item posted at `then`, read at the instant `now` and
/// `now_nanos` nanoseconds.
pub open spec fn age_at(now: int, now_nanos: int, then: int) -> Seq<char> {
    age_label_text(delta_seconds(now, now_nanos, then))
}

/// The view of an optional label.
pub open spec fn label_view(o: Option<String>) -> Option<Seq<char>> {
    match o {
        Some(s) => Some(s@),
        None => None,
    }
}

/// The age of an item posted at `then` when the clock reads `now_secs`
/// seconds and `now_nanos` nanoseconds: `None` when that reading does not
/// fit an `i64` or lies outside the dates that `chrono` represents.
pub open spec fn reading_age(now_secs: u64, now_nanos: u32, then: int) -> Option<Seq<char>> {
    if now_secs <= i64::MAX && representable(now_secs as int) {
        Some(age_at(now_secs as int, now_nanos as int, then))
    } else {
        None
    }
}

/// The age of an item posted at `time` for a clock reading: `None` when
/// the time does not fit an `i64` or is out of range, or when there is no
/// reading or it is out of range.
pub open spec fn friendly_age(time: u64, reading: Option<(u64, u32)>) -> Option<Seq<char>> {
    if time <= i64::MAX && representable(time as int) {
        match reading {
            Some(t) => reading_age(t.0, t.1, time as int),
            None => None,
        }
    } else {
        None
    }
}

/// Like [`friendly_age`], with the time's bits read as an `i64`.
pub open spec fn date_age(time: u64, reading: Option<(u64, u32)>) -> Option<Seq<char>> {
    if representable((time as i64) as int) {
        match reading {
            Some(t) => reading_age(t.0, t.1, (time as i64) as int),
            None => None,
        }
    } else {
        None
    }
}

/// Whether `label` is the age of an item posted at `then` for some reading
/// of the clock.
pub open spec fn is_age_of(label: Seq<char>, then: int) -> bool {
    exists|now_secs: u64, now_nanos: u32|
        now_nanos < 1_000_000_000 && #[trigger] reading_age(now_secs, now_nanos, then) == Some(label)
}

/// The age of an item posted at `then`, when the clock reads `now_secs`
/// seconds and `now_nanos` nanoseconds since the UNIX epoch.
pub fn age_at_reading(now_secs: u64, now_nanos: u32, then: i64) -> (r: Option<String>)
    requires
        representable(then as int),
        now_nanos < 1_000_000_000,
    ensures
        label_view(r) == reading_age(now_secs, now_nanos, then as int),
{
    if now_secs > 9223372036854775807u64 {
        return None;
    }
    let now = match utc_from_timestamp(now_secs as i64) {
        Some(n) => n,
        None => return None,
    };
    match chrono_age(now, now_nanos, then) {
        Some((days, hours, minutes)) => {
            let r = label_of_parts(days, hours, minutes);
            assert(age_at(now as int, now_nanos as int, then as int) == r@);
            Some(r)
        },
        None => None,
    }
}

/// The age of an item posted at UNIX time `time`, as a friendly sentence,
/// for the clock reading `reading`.
pub fn friendly_age_at(time: u64, reading: Option<(u64, u32)>) -> (r: Option<String>)
    requires
        clock_ok(reading),
    ensures
        label_view(r) == friendly_age(time, reading),
{
    if time > 9223372036854775807u64 {
        return None;
    }
    let secs = time as i64;
    match utc_from_timestamp(secs) {
        Some(then) => match reading {
            Some((now_secs, now_nanos)) => age_at_reading(now_secs, now_nanos, then),
            None => None,
        },
        None => None,
    }
}

/// Like [`friendly_age_at`], but reading the time as an `i64` by
/// reinterpreting its bits.
pub fn date_age_at(time: u64, reading: Option<(u64, u32)>) -> (r: Option<String>)
    requires
        clock_ok(reading),
    ensures
        label_view(r) == date_age(time, reading),
{
    let secs = time as i64;
    match utc_from_timestamp(secs) {
        Some(then) => match reading {
            Some((now_secs, now_nanos)) => age_at_reading(now_secs, now_nanos, then),
            None => None,
        },
        None => None,
    }
}

/// The age of an item posted at UNIX time `time`, as a friendly sentence,
/// at the current time: what [`friendly_age_at`] gives for the clock's
/// reading. `None` when the time does not fit an `i64` or lies outside the
/// dates that `chrono` represents, and when the clock cannot be read as
/// such a date.
pub fn parse_friendly_age(time: u64) -> (r: Option<String>)
    ensures
        exists|reading: Option<(u64, u32)>| clock_ok(reading) && #[trigger] friendly_age(time, reading) == label_view(r),
        r is Some ==> time <= i64::MAX && representable(time as int),
        !(time <= i64::MAX && representable(time as int)) ==> r is None,
        r matches Some(s) ==> is_age_of(s@, time as int),
{
    if time > 9223372036854775807u64 || !representable_time(time as i64) {
        assert(friendly_age(time, None) == label_view(None::<String>));
        return None;
    }
    let reading = clock_reading();
    let r = friendly_age_at(time, reading);
    assert(friendly_age(time, reading) == label_view(r));
    r
}

/// Like [`parse_friendly_age`], but reading the time as an `i64` by
/// reinterpreting its bits, so that times beyond `i64::MAX` count as
/// negative: what [`date_age_at`] gives for the clock's reading.
pub fn parse_date(time: u64) -> (r: Option<String>)
    ensures
        exists|reading: Option<(u64, u32)>| clock_ok(reading) && #[trigger] date_age(time, reading) == label_view(r),
        r is Some ==> representable((time as i64) as int),
        !representable((time as i64) as int) ==> r is None,
        r matches Some(s) ==> is_age_of(s@, (time as i64) as int),
{
    if !representable_time(time as i64) {
        assert(date_age(time, None) == label_view(None::<String>));
        return None;
    }
    let reading = clock_reading();
    let r = date_age_at(time, reading);
    assert(date_age(time, reading) == label_view(r));
    r
}

/// Whether `time` names an instant that `chrono` represents.
fn representable_time(time: i64) -> (r: bool)
    ensures
        r == representable(time as int),
{
    utc_from_timestamp(time).is_some()
}

} // verus!
