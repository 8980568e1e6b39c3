//! Points in time as whole seconds since the Unix epoch and a nanosecond part.

use chrono::{DateTime, SecondsFormat};
use vstd::prelude::*;

verus! {

/// The first second of the calendar: 1 January of the year -262143.
pub const MIN_SECONDS: i64 = -8_334_601_228_800;

/// The last second of the calendar: 31 December of the year 262142.
pub const MAX_SECONDS: i64 = 8_210_266_876_799;

/// The first second of the year 0.
pub const FIRST_WRITABLE_SECOND: i64 = -62_167_219_200;

/// The last second of the year 9999.
pub const LAST_WRITABLE_SECOND: i64 = 253_402_300_799;

/// A point in time in UTC. A nanosecond part of one second or more denotes a
/// leap second.
#[derive(Debug, Clone, Copy, PartialEq, Eq, Structural)]
pub struct Timestamp {
    pub secs: i64,
    pub nanos: u32,
}

impl Timestamp {
    /// Strictly earlier: by seconds, then by nanoseconds.
    pub open spec fn earlier(self, other: Timestamp) -> bool {
        self.secs < other.secs || (self.secs == other.secs && self.nanos < other.nanos)
    }

    /// The calendar contains the point in time.
    pub open spec fn representable(self) -> bool {
        MIN_SECONDS <= self.secs <= MAX_SECONDS && self.nanos < 2_000_000_000
    }

    /// The point in time lies on a whole millisecond.
    pub open spec fn whole_millis(self) -> bool {
        self.nanos % 1_000_000 == 0
    }

    /// Milliseconds since the epoch.
    pub open spec fn millis_spec(self) -> int {
        self.secs * 1000 + self.nanos / 1_000_000
    }

    /// The second of the day.
    pub open spec fn day_second(self) -> int {
        self.secs as int % 86_400
    }

    /// The nanoseconds from this point in time to a later one. A leap second
    /// between the two counts where the later time of day comes after it.
    pub open spec fn nanos_until(self, later: Timestamp) -> int {
        let leap = if later.day_second() > self.day_second() && self.nanos >= 1_000_000_000 {
            1
        } else if later.day_second() < self.day_second() && later.nanos >= 1_000_000_000 {
            -1int
        } else {
            0
        };
        (later.secs - self.secs + leap) * 1_000_000_000 + (later.nanos - self.nanos)
    }

    pub fn is_before(&self, other: &Timestamp) -> (r: bool)
        ensures
            r == self.earlier(*other),
    {
        self.secs < other.secs || (self.secs == other.secs && self.nanos < other.nanos)
    }

    pub fn is_representable(&self) -> (r: bool)
        ensures
            r == self.representable(),
    {
        MIN_SECONDS <= self.secs && self.secs <= MAX_SECONDS && self.nanos < 2_000_000_000
    }

    pub fn has_whole_millis(&self) -> (r: bool)
        ensures
            r == self.whole_millis(),
    {
        self.nanos % 1_000_000 == 0
    }

    /// Milliseconds since the epoch.
    pub fn millis(&self) -> (ms: i64)
        requires
            self.representable(),
        ensures
            ms == self.millis_spec(),
    {
        self.secs * 1000 + (self.nanos / 1_000_000) as i64
    }

    fn second_of_day(&self) -> (s: u64)
        requires
            self.representable(),
        ensures
            s == self.day_second(),
    {
        let shifted: u64 = (self.secs + 8_640_000_000_000) as u64;
        proof {
            assert((self.secs + 8_640_000_000_000int) % 86_400 == self.secs as int % 86_400)
                by (nonlinear_arith);
        }
        shifted % 86_400
    }

    /// The nanoseconds from this point in time to a later one.
    pub fn nanoseconds_until(&self, later: &Timestamp) -> (n: i128)
        requires
            self.representable(),
            later.representable(),
        ensures
            n == self.nanos_until(*later),
    {
        let a: u64 = self.second_of_day();
        let b: u64 = later.second_of_day();
        let leap: i64 = if b > a && self.nanos >= 1_000_000_000 {
            1
        } else if b < a && later.nanos >= 1_000_000_000 {
            -1
        } else {
            0
        };
        let seconds: i64 = later.secs - self.secs + leap;
        seconds as i128 * 1_000_000_000 + (later.nanos as i128 - self.nanos as i128)
    }
}

/// The point in time that many milliseconds from the epoch, where the calendar
/// contains it.
pub open spec fn millis_instant(ms: i64) -> Option<Timestamp> {
    if MIN_SECONDS <= ms as int / 1000 <= MAX_SECONDS {
        Some(
            Timestamp {
                secs: (ms as int / 1000) as i64,
                nanos: ((ms as int % 1000) * 1_000_000) as u32,
            },
        )
    } else {
        None
    }
}

/// `chrono::DateTime::from_timestamp_millis`: splits milliseconds into seconds,
/// rounding down, and the rest; nothing where the calendar does not reach.
#[verifier::external_body]
pub(crate) fn from_millis(ms: i64) -> (r: Option<Timestamp>)
    ensures
        r == millis_instant(ms),
{
    DateTime::from_timestamp_millis(ms).map(
        |t| Timestamp { secs: t.timestamp(), nanos: t.timestamp_subsec_nanos() },
    )
}

/// What `chrono::DateTime::to_rfc3339_opts` writes with milliseconds and `Z`.
pub uninterp spec fn rfc3339_text(secs: i64, nanos: u32) -> Seq<char>;

/// What `chrono::DateTime::parse_from_rfc3339` reads, as UTC.
pub uninterp spec fn rfc3339_instant(text: Seq<char>) -> Option<(i64, u32)>;

/// The point in time that the text of a point in time stands for: the same to
/// the millisecond, within the years 0 to 9999. Other years are written with a
/// sign, which is not read.
pub open spec fn kept_instant(t: Timestamp) -> Option<Timestamp> {
    if FIRST_WRITABLE_SECOND <= t.secs <= LAST_WRITABLE_SECOND {
        Some(Timestamp { secs: t.secs, nanos: (t.nanos - t.nanos % 1_000_000) as u32 })
    } else {
        None
    }
}

/// The point in time that `chrono` reads from a text.
pub open spec fn stored_instant(text: Seq<char>) -> Option<Timestamp> {
    match rfc3339_instant(text) {
        Some((secs, nanos)) => Some(Timestamp { secs, nanos }),
        None => None,
    }
}

/// `chrono::DateTime::to_rfc3339_opts` with milliseconds and `Z`. The text
/// depends on the point in time alone. Within the years 0 to 9999, parsing it
/// gives the point in time back to the millisecond; the text of another year
/// starts with a sign, and parsing refuses it.
#[verifier::external_body]
pub(crate) fn write_rfc3339(t: Timestamp) -> (s: String)
    requires
        MIN_SECONDS <= t.secs <= MAX_SECONDS,
        t.nanos < 1_000_000_000,
    ensures
        s@ == rfc3339_text(t.secs, t.nanos),
        stored_instant(s@) == kept_instant(t),
{
    DateTime::from_timestamp(t.secs, t.nanos).unwrap_or_default().to_rfc3339_opts(
        SecondsFormat::Millis,
        true,
    )
}

/// `chrono::DateTime::parse_from_rfc3339`, as UTC. The result depends on the
/// text alone, and the calendar contains it.
#[verifier::external_body]
pub(crate) fn parse_rfc3339(text: &str) -> (r: Option<Timestamp>)
    ensures
        match r {
            Some(t) => rfc3339_instant(text@) == Some((t.secs, t.nanos)) && t.representable(),
            None => rfc3339_instant(text@) is None,
        },
{
    DateTime::parse_from_rfc3339(text).ok().map(
        |t| Timestamp { secs: t.timestamp(), nanos: t.timestamp_subsec_nanos() },
    )
}

/// Time is totally ordered.
pub proof fn time_order_is_total(a: Timestamp, b: Timestamp, c: Timestamp)
    ensures
        !a.earlier(a),
        a.earlier(b) && b.earlier(c) ==> a.earlier(c),
        a.earlier(b) || b.earlier(a) || a == b,
{
}

/// Milliseconds and points in time on whole milliseconds convert both ways.
pub proof fn millis_round_trip(ms: i64)
    requires
        millis_instant(ms) is Some,
    ensures
        millis_instant(ms)->0.millis_spec() == ms,
        millis_instant(ms)->0.whole_millis(),
        millis_instant(ms)->0.representable(),
{
}

/// The time between two points in time outside leap seconds is the difference of
/// their seconds and nanoseconds, and the way back is its opposite.
pub proof fn time_passes_evenly(a: Timestamp, b: Timestamp)
    requires
        a.nanos < 1_000_000_000,
        b.nanos < 1_000_000_000,
    ensures
        a.nanos_until(b) == (b.secs * 1_000_000_000 + b.nanos) - (a.secs * 1_000_000_000 + a.nanos),
        a.nanos_until(b) == -b.nanos_until(a),
        a.earlier(b) <==> a.nanos_until(b) > 0,
{
}

/// A point in time stands for its thousand milliseconds a second and its million
/// nanoseconds a millisecond, and only what lies between the first and the last
/// second of the calendar is a point in time.
pub proof fn millis_count_thousands(ms: i64, t: Timestamp)
    ensures
        millis_instant(ms) is Some <==> -8_334_601_228_800_000 <= ms <= 8_210_266_876_799_999,
        millis_instant(ms) is Some ==> millis_instant(ms)->0.secs * 1000
            + millis_instant(ms)->0.nanos / 1_000_000 == ms && millis_instant(ms)->0.nanos
            < 1_000_000_000 && millis_instant(ms)->0.nanos % 1_000_000 == 0,
        t.millis_spec() * 1_000_000 <= t.secs * 1_000_000_000 + t.nanos < (t.millis_spec() + 1)
            * 1_000_000,
        t.representable() <==> -8_334_601_228_800 <= t.secs <= 8_210_266_876_799 && t.nanos
            < 2_000_000_000,
{
}

} // verus!
