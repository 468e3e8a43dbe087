//! Moments in time.
//!
//! A moment counts the seconds since 1970 and the nanoseconds beyond them. What a
//! calendar makes of it is left to `chrono`.

use crate::text;
use vstd::prelude::*;

verus! {

/// Year, month and day.
pub const DAY: &'static str = "%Y-%m-%d";

/// A day with hours and minutes.
pub const MINUTE: &'static str = "%Y-%m-%d %H:%M";

/// A day with hours, minutes and seconds.
pub const SECOND: &'static str = "%Y-%m-%d %H:%M:%S";

/// A day with hours, minutes and seconds, as a timestamp in UTC.
pub const STAMP: &'static str = "%Y-%m-%dT%H:%M:%SZ";

/// The first second of the calendar: that of January 1, 262144 BCE.
pub const FIRST_SECOND: i64 = -8_334_601_228_800;

/// The last second of the calendar: that of December 31, 262142 CE.
pub const LAST_SECOND: i64 = 8_210_266_876_799;

/// Whether the calendar has a moment. Only the last second of a minute can be a leap
/// second, with twice the nanoseconds.
pub open spec fn time_exists(secs: i64, nanos: u32) -> bool {
    &&& FIRST_SECOND <= secs <= LAST_SECOND
    &&& nanos < 1_000_000_000 || (nanos < 2_000_000_000 && secs % 60 == 59)
}

/// Calls `chrono::DateTime::from_timestamp`, which gives `None` for seconds that are
/// out of the calendar's range and for nanoseconds that no second has.
#[verifier::external_body]
fn calendar_has(secs: i64, nanos: u32) -> (r: bool)
    ensures
        r == time_exists(secs, nanos),
{
    chrono::DateTime::from_timestamp(secs, nanos).is_some()
}

/// A moment written down by a pattern.
pub uninterp spec fn time_text(secs: i64, nanos: u32, pattern: Seq<char>) -> Seq<char>;

/// Calls `chrono::DateTime::format` on the moment, in UTC. It fails on patterns that it
/// does not know, so only the four of this module are let through.
#[verifier::external_body]
fn calendar_format(secs: i64, nanos: u32, pattern: &str) -> (r: String)
    requires
        time_exists(secs, nanos),
        pattern@ == DAY@ || pattern@ == MINUTE@ || pattern@ == SECOND@ || pattern@ == STAMP@,
    ensures
        r@ == time_text(secs, nanos, pattern@),
{
    chrono::DateTime::from_timestamp(secs, nanos).unwrap_or_default().format(pattern).to_string()
}

/// The moment that a text in the form of RFC 3339 names.
pub uninterp spec fn rfc3339(s: Seq<char>) -> Option<(i64, u32)>;

/// Calls `chrono::DateTime::parse_from_rfc3339`, and takes the seconds and nanoseconds
/// of the moment, whatever its offset. A moment that is read is one of the calendar.
#[verifier::external_body]
fn calendar_parse(s: &str) -> (r: Option<(i64, u32)>)
    ensures
        r == rfc3339(s@),
        r matches Some((secs, nanos)) ==> time_exists(secs, nanos),
{
    let moment = chrono::DateTime::parse_from_rfc3339(s).ok()?;
    Some((moment.timestamp(), moment.timestamp_subsec_nanos()))
}

/// Whole seconds of a span of nanoseconds; a part of a second is dropped.
pub open spec fn whole_seconds(span: int) -> int {
    if span >= 0 {
        span / 1_000_000_000
    } else {
        -((-span) / 1_000_000_000)
    }
}

/// The leap second that lies between two moments: it is counted where the one of them
/// that is in a leap second has the earlier time of day.
pub open spec fn leap_between(secs: i64, nanos: u32, from_secs: i64, from_nanos: u32) -> int {
    if secs as int % 86_400 > from_secs as int % 86_400 && from_nanos >= 1_000_000_000 {
        1
    } else if (secs as int % 86_400) < from_secs as int % 86_400 && nanos >= 1_000_000_000 {
        -1
    } else {
        0
    }
}

/// The nanoseconds from one moment to another.
pub open spec fn span_from(secs: i64, nanos: u32, from_secs: i64, from_nanos: u32) -> int {
    let leap = leap_between(secs, nanos, from_secs, from_nanos);
    (secs - from_secs + leap) * 1_000_000_000 + (nanos - from_nanos)
}

/// The whole seconds from one moment to another.
pub open spec fn seconds_from(secs: i64, nanos: u32, from_secs: i64, from_nanos: u32) -> int {
    whole_seconds(span_from(secs, nanos, from_secs, from_nanos))
}

/// Calls `chrono::DateTime::signed_duration_since` and `num_seconds`: the difference
/// counts the nanoseconds between the moments, and a leap second of which one of them is
/// a part where the other comes later in the day.
#[verifier::external_body]
fn calendar_seconds(secs: i64, nanos: u32, from_secs: i64, from_nanos: u32) -> (r: i64)
    requires
        time_exists(secs, nanos),
        time_exists(from_secs, from_nanos),
    ensures
        r == seconds_from(secs, nanos, from_secs, from_nanos),
{
    let moment = chrono::DateTime::from_timestamp(secs, nanos).unwrap_or_default();
    let from = chrono::DateTime::from_timestamp(from_secs, from_nanos).unwrap_or_default();
    moment.signed_duration_since(from).num_seconds()
}

/// A moment that the calendar has.
#[derive(Debug, Clone, Copy, PartialEq, Eq)]
pub struct Moment {
    seconds: i64,
    nanoseconds: u32,
}

impl Moment {
    #[verifier::type_invariant]
    spec fn in_calendar(self) -> bool {
        time_exists(self.seconds, self.nanoseconds)
    }

    /// The seconds since 1970.
    pub closed spec fn secs(self) -> i64 {
        self.seconds
    }

    /// The nanoseconds beyond the second.
    pub closed spec fn nanos(self) -> u32 {
        self.nanoseconds
    }

    /// The moment written down by a pattern.
    pub open spec fn shown(self, pattern: Seq<char>) -> Seq<char> {
        time_text(self.secs(), self.nanos(), pattern)
    }

    /// The moment after so many seconds and nanoseconds, where the calendar has it.
    pub fn new(secs: i64, nanos: u32) -> (r: Option<Moment>)
        ensures
            match r {
                Some(m) => time_exists(secs, nanos) && m.secs() == secs && m.nanos() == nanos,
                None => !time_exists(secs, nanos),
            },
    {
        if calendar_has(secs, nanos) {
            Some(Moment { seconds: secs, nanoseconds: nanos })
        } else {
            None
        }
    }

    /// The moment that a text in the form of RFC 3339 names.
    pub fn parse(s: &str) -> (r: Option<Moment>)
        ensures
            match r {
                Some(m) => rfc3339(s@) == Some((m.secs(), m.nanos())),
                None => rfc3339(s@) is None,
            },
    {
        match calendar_parse(s) {
            Some((secs, nanos)) => Moment::new(secs, nanos),
            None => None,
        }
    }

    /// The seconds since 1970.
    pub fn seconds(&self) -> (r: i64)
        ensures
            r == self.secs(),
    {
        self.seconds
    }

    /// The nanoseconds beyond the second.
    pub fn nanoseconds(&self) -> (r: u32)
        ensures
            r == self.nanos(),
    {
        self.nanoseconds
    }

    /// The day of the moment.
    pub fn day(&self) -> (r: String)
        ensures
            r@ == self.shown(DAY@),
    {
        proof {
            use_type_invariant(self);
        }
        calendar_format(self.seconds, self.nanoseconds, DAY)
    }

    /// The minute of the moment.
    pub fn minute(&self) -> (r: String)
        ensures
            r@ == self.shown(MINUTE@),
    {
        proof {
            use_type_invariant(self);
        }
        calendar_format(self.seconds, self.nanoseconds, MINUTE)
    }

    /// The second of the moment.
    pub fn second(&self) -> (r: String)
        ensures
            r@ == self.shown(SECOND@),
    {
        proof {
            use_type_invariant(self);
        }
        calendar_format(self.seconds, self.nanoseconds, SECOND)
    }

    /// The moment as a timestamp in UTC.
    pub fn stamp(&self) -> (r: String)
        ensures
            r@ == self.shown(STAMP@),
    {
        proof {
            use_type_invariant(self);
        }
        calendar_format(self.seconds, self.nanoseconds, STAMP)
    }

    /// The whole seconds between two moments.
    pub fn seconds_since(&self, from: &Moment) -> (r: i64)
        ensures
            r == seconds_from(self.secs(), self.nanos(), from.secs(), from.nanos()),
            -16_544_868_105_601 <= r <= 16_544_868_105_601,
    {
        proof {
            use_type_invariant(self);
            use_type_invariant(from);
        }
        calendar_seconds(self.seconds, self.nanoseconds, from.seconds, from.nanoseconds)
    }

    /// Whether two moments are farther apart than so many seconds, parts of a second
    /// included: the whole seconds are more, or are as many with a part of a second beyond.
    pub fn is_farther_than(&self, from: &Moment, seconds: u32) -> (r: bool)
        ensures
            r == ({
                let span = span_from(self.secs(), self.nanos(), from.secs(), from.nanos());
                span > seconds * 1_000_000_000 || -span > seconds * 1_000_000_000
            }),
    {
        let whole: i64 = self.seconds_since(from);
        let distance: i64 = if whole < 0 {
            -whole
        } else {
            whole
        };
        if distance == seconds as i64 {
            self.nanoseconds % 1_000_000_000 != from.nanoseconds % 1_000_000_000
        } else {
            distance > seconds as i64
        }
    }
}

/// A span reads the same forwards and backwards, and no span is none; a later second is a longer
/// span.
pub proof fn law_spans_are_even(secs: i64, nanos: u32, from_secs: i64, from_nanos: u32)
    requires
        nanos < 1_000_000_000,
        from_nanos < 1_000_000_000,
    ensures
        seconds_from(secs, nanos, from_secs, from_nanos) == -seconds_from(
            from_secs,
            from_nanos,
            secs,
            nanos,
        ),
        seconds_from(secs, nanos, secs, nanos) == 0,
        nanos == from_nanos ==> seconds_from(secs, nanos, from_secs, from_nanos) == secs
            - from_secs,
        secs > from_secs ==> seconds_from(secs, nanos, from_secs, from_nanos) >= secs - from_secs
            - 1 && seconds_from(secs, nanos, from_secs, from_nanos) <= secs - from_secs,
{
    let a = span_from(secs, nanos, from_secs, from_nanos);
    assert(a == (secs - from_secs) * 1_000_000_000 + (nanos - from_nanos));
    assert(span_from(from_secs, from_nanos, secs, nanos) == -a);
}

} // verus!
