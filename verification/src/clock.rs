//! Reading the clock (through `std::time`) and rendering times as RFC 3339
//! text (through `chrono`).
//!
//! A reading is kept as plain numbers, so everything computed from it is
//! stated over those numbers; only the reading itself is beyond any contract.

use vstd::prelude::*;

verus! {

#[verifier::external_type_specification]
#[verifier::external_body]
pub struct ExSystemTime(std::time::SystemTime);

/// A time as chrono holds it, kept opaque: chrono's `DateTime` is generic
/// over its `TimeZone` trait, and only the UTC instance is needed here.
#[verifier::external_body]
struct UtcTime {
    time: chrono::DateTime<chrono::Utc>,
}

/// A reading of the system clock: whole seconds and the nanoseconds past
/// them since 1970-01-01T00:00:00Z.
#[derive(Clone, Copy, Debug, PartialEq, Eq)]
pub struct ClockReading {
    pub secs: u64,
    pub nanos: u32,
}

/// Whether `chrono::DateTime::from_timestamp` accepts the seconds and
/// nanoseconds (chrono's range of dates, and nanoseconds it can represent).
pub uninterp spec fn timestamp_in_range(secs: i64, nanos: u32) -> bool;

/// What `DateTime::to_rfc3339` writes for the UTC time `secs` seconds and
/// `nanos` nanoseconds after 1970-01-01T00:00:00Z.
pub uninterp spec fn rfc3339_text(secs: i64, nanos: u32) -> Seq<char>;

/// A chrono time together with the timestamp it was made from.
struct Timestamp {
    secs: i64,
    nanos: u32,
    time: UtcTime,
}

impl Timestamp {
    spec fn secs(&self) -> i64 {
        self.secs
    }

    spec fn nanos(&self) -> u32 {
        self.nanos
    }
}

/// Whether `s` ends with the UTC offset `+00:00`.
pub open spec fn ends_with_utc_offset(s: Seq<char>) -> bool {
    s.len() >= 6 && s.subrange(s.len() - 6, s.len() as int) == seq!['+', '0', '0', ':', '0', '0']
}

/// The last second of the year 9999.
pub open spec fn last_second_of_9999() -> int {
    253_402_300_799
}

/// `chrono::DateTime::from_timestamp`: `None` when the time is out of
/// chrono's range or the nanoseconds are invalid. chrono's dates reach far
/// beyond the years 1970 to 9999, and any nanosecond count below one
/// billion is valid.
#[verifier::external_body]
fn from_timestamp(secs: i64, nanos: u32) -> (r: Option<Timestamp>)
    ensures
        r is Some <==> timestamp_in_range(secs, nanos),
        r matches Some(t) ==> t.secs() == secs && t.nanos() == nanos,
        0 <= secs <= last_second_of_9999() && nanos < 1_000_000_000 ==> r is Some,
{
    chrono::DateTime::from_timestamp(secs, nanos).map(
        |time| Timestamp { secs, nanos, time: UtcTime { time } },
    )
}

/// `DateTime::to_rfc3339` on a UTC time: the date, `T`, the time of day
/// with an optional fraction, and the offset `+00:00`; the shortest form has
/// 25 characters.
#[verifier::external_body]
fn to_rfc3339(t: &Timestamp) -> (r: String)
    ensures
        r@ == rfc3339_text(t.secs(), t.nanos()),
        r@.len() >= 25,
        ends_with_utc_offset(r@),
{
    t.time.time.to_rfc3339()
}

/// `std::time::SystemTime::now()`.
#[verifier::external_body]
fn system_now() -> std::time::SystemTime {
    std::time::SystemTime::now()
}

/// `SystemTime::duration_since(UNIX_EPOCH)`; the error (a clock before 1970)
/// becomes `None`.
#[verifier::external_body]
fn since_unix_epoch(t: &std::time::SystemTime) -> Option<std::time::Duration> {
    t.duration_since(std::time::UNIX_EPOCH).ok()
}

/// `Duration::as_secs`: whole seconds of an opaque duration.
#[verifier::external_body]
fn whole_seconds(d: &std::time::Duration) -> u64 {
    d.as_secs()
}

/// `Duration::subsec_nanos`: the fractional part in nanoseconds, which is
/// always below one billion.
#[verifier::external_body]
fn subsec_nanos(d: &std::time::Duration) -> (r: u32)
    ensures
        r < 1_000_000_000,
{
    d.subsec_nanos()
}

/// Reads the system clock; `None` when it reads before 1970.
pub fn read_clock() -> (r: Option<ClockReading>)
    ensures
        r matches Some(c) ==> c.nanos < 1_000_000_000,
{
    let now = system_now();
    match since_unix_epoch(&now) {
        Some(d) => Some(ClockReading { secs: whole_seconds(&d), nanos: subsec_nanos(&d) }),
        None => None,
    }
}

/// Seconds since the Unix epoch; `None` when the clock reads before it.
pub fn unix_time_secs() -> (r: Option<u64>) {
    match read_clock() {
        Some(c) => Some(c.secs),
        None => None,
    }
}

/// The RFC 3339 text of the reading moved by `offset` seconds; `None` when
/// that time is outside chrono's range.
pub open spec fn rfc3339_after_spec(c: ClockReading, offset: int) -> Option<Seq<char>> {
    let s = c.secs + offset;
    if i64::MIN <= s <= i64::MAX && timestamp_in_range(s as i64, c.nanos) {
        Some(rfc3339_text(s as i64, c.nanos))
    } else {
        None
    }
}

pub open spec fn opt_text(o: Option<String>) -> Option<Seq<char>> {
    match o {
        Some(s) => Some(s@),
        None => None,
    }
}

/// Renders the reading moved by `offset` seconds (see [`rfc3339_after_spec`]).
pub fn rfc3339_after(c: ClockReading, offset: i64) -> (r: Option<String>)
    ensures
        opt_text(r) == rfc3339_after_spec(c, offset as int),
        c.nanos < 1_000_000_000 && 0 <= c.secs + offset <= last_second_of_9999() ==> r is Some,
        r matches Some(s) ==> s@.len() >= 25 && ends_with_utc_offset(s@),
{
    let shifted = c.secs as i128 + offset as i128;
    if shifted < i64::MIN as i128 || shifted > i64::MAX as i128 {
        return None;
    }
    match from_timestamp(shifted as i64, c.nanos) {
        Some(t) => Some(to_rfc3339(&t)),
        None => None,
    }
}

} // verus!
