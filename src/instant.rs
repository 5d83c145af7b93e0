//! Instants as nanoseconds since the Unix epoch, within jiff's timestamp range.

use vstd::prelude::*;

verus! {

/// The earliest whole second a `jiff::Timestamp` can hold.
pub const MIN_SECOND: i64 = -377705023201;

/// The latest whole second a `jiff::Timestamp` can hold.
pub const MAX_SECOND: i64 = 253402207200;

pub const NANOS_PER_SECOND: i128 = 1000000000;

pub const NANOS_PER_MINUTE: i128 = 60000000000;

pub open spec fn min_nanosecond() -> int {
    MIN_SECOND * NANOS_PER_SECOND
}

pub open spec fn max_nanosecond() -> int {
    MAX_SECOND * NANOS_PER_SECOND + (NANOS_PER_SECOND - 1)
}

/// Whether `ns` nanoseconds since the epoch is a representable instant.
pub open spec fn in_range(ns: int) -> bool {
    min_nanosecond() <= ns <= max_nanosecond()
}

/// The text jiff prints for the timestamp `ns` nanoseconds after the epoch.
pub uninterp spec fn timestamp_text(ns: int) -> Seq<char>;

/// What jiff parses from `s`, as nanoseconds since the epoch; `None` when
/// `s` is not a timestamp jiff accepts.
pub uninterp spec fn timestamp_parse(s: Seq<char>) -> Option<int>;

/// Relies on `jiff::Timestamp::new`, which succeeds for every second and
/// nanosecond within the bounds below, and on jiff's `Display` for
/// `Timestamp` (RFC 3339 in UTC), which depends on the timestamp alone.
#[verifier::external_body]
fn format_timestamp(second: i64, nanosecond: i32) -> (r: String)
    requires
        MIN_SECOND <= second <= MAX_SECOND,
        -NANOS_PER_SECOND < nanosecond < NANOS_PER_SECOND,
        !(second == MIN_SECOND && nanosecond < 0),
    ensures
        r@ == timestamp_text(second * NANOS_PER_SECOND + nanosecond),
{
    jiff::Timestamp::new(second, nanosecond).map(|t| t.to_string()).unwrap_or_default()
}

/// Relies on jiff's `FromStr` for `Timestamp` (the parser its serde support
/// uses too) and on `Timestamp::as_nanosecond`.
#[verifier::external_body]
fn parse_timestamp(s: &str) -> (r: Option<i128>)
    ensures
        r matches Some(n) ==> timestamp_parse(s@) == Some(n as int),
        r is None ==> timestamp_parse(s@) is None,
{
    s.parse::<jiff::Timestamp>().ok().map(|t| t.as_nanosecond())
}

/// A point in time, counted in nanoseconds since the Unix epoch.
#[derive(Debug, Clone, Copy, PartialEq, Eq, Structural)]
pub struct Instant {
    pub nanosecond: i128,
}

impl Instant {
    pub open spec fn wf(&self) -> bool {
        in_range(self.nanosecond as int)
    }

    /// The instant `ns` nanoseconds after the epoch, if it is representable.
    pub fn from_nanosecond(ns: i128) -> (r: Option<Instant>)
        ensures
            r is Some <==> in_range(ns as int),
            r matches Some(i) ==> i.nanosecond == ns && i.wf(),
    {
        if MIN_SECOND as i128 * NANOS_PER_SECOND <= ns && ns <= MAX_SECOND as i128
            * NANOS_PER_SECOND + (NANOS_PER_SECOND - 1) {
            Some(Instant { nanosecond: ns })
        } else {
            None
        }
    }

    /// The Unix epoch.
    pub fn epoch() -> (r: Instant)
        ensures
            r.nanosecond == 0,
            r.wf(),
    {
        Instant { nanosecond: 0 }
    }

    /// This instant moved `minutes` minutes later, if that is representable.
    pub fn plus_minutes(&self, minutes: usize) -> (r: Option<Instant>)
        requires
            self.wf(),
        ensures
            r is Some <==> in_range(self.nanosecond + minutes * NANOS_PER_MINUTE),
            r matches Some(i) ==> i.nanosecond == self.nanosecond + minutes * NANOS_PER_MINUTE,
    {
        assert(minutes * NANOS_PER_MINUTE <= 0x1_0000_0000_0000_0000 * 60000000000) by (nonlinear_arith)
            requires minutes <= 0xffff_ffff_ffff_ffff;
        let later = self.nanosecond + (minutes as i128) * NANOS_PER_MINUTE;
        Instant::from_nanosecond(later)
    }

    /// Whether this instant is strictly after `other`.
    pub fn is_after(&self, other: &Instant) -> (r: bool)
        ensures
            r == (self.nanosecond > other.nanosecond),
    {
        self.nanosecond > other.nanosecond
    }

    /// The RFC 3339 text of this instant, as jiff prints it.
    pub fn to_text(&self) -> (r: String)
        requires
            self.wf(),
        ensures
            r@ == timestamp_text(self.nanosecond as int),
    {
        let ns = self.nanosecond;
        if ns >= 0 {
            let second = ns / NANOS_PER_SECOND;
            let sub = ns % NANOS_PER_SECOND;
            assert(second * NANOS_PER_SECOND + sub == ns) by (nonlinear_arith)
                requires second == ns / NANOS_PER_SECOND, sub == ns % NANOS_PER_SECOND, ns >= 0;
            assert(second <= MAX_SECOND) by (nonlinear_arith)
                requires second == ns / NANOS_PER_SECOND, ns <= max_nanosecond();
            format_timestamp(second as i64, sub as i32)
        } else {
            let a = -ns;
            let q = a / NANOS_PER_SECOND;
            let m = a % NANOS_PER_SECOND;
            assert(q * NANOS_PER_SECOND + m == a) by (nonlinear_arith)
                requires q == a / NANOS_PER_SECOND, m == a % NANOS_PER_SECOND, a >= 0;
            assert(q <= -MIN_SECOND) by (nonlinear_arith)
                requires q == a / NANOS_PER_SECOND, a <= -min_nanosecond();
            assert(q == -MIN_SECOND ==> m == 0) by (nonlinear_arith)
                requires q * NANOS_PER_SECOND + m == a, 0 <= m < NANOS_PER_SECOND, a <= -min_nanosecond();
            format_timestamp(-(q as i64), -(m as i32))
        }
    }
}

/// Parses RFC 3339 text into an instant; `None` when jiff refuses the text
/// or the instant falls outside the representable range.
pub fn parse_instant(s: &str) -> (r: Option<Instant>)
    ensures
        r == (match timestamp_parse(s@) {
            Some(n) => if in_range(n) { Some(Instant { nanosecond: n as i128 }) } else { None },
            None => None,
        }),
{
    match parse_timestamp(s) {
        Some(n) => Instant::from_nanosecond(n),
        None => None,
    }
}

} // verus!
