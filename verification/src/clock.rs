//! Points in time, and the two places where the calendar library is asked.

use vstd::prelude::*;

verus! {

/// A point in time: whole seconds since 1970-01-01 00:00:00 UTC and the
/// nanoseconds since the last whole second. During a leap second the
/// nanoseconds run on past 999,999,999.
#[derive(Clone, Copy, Debug, PartialEq, Eq, Structural)]
pub struct Timestamp {
    pub secs: i64,
    pub nanos: u32,
}

impl Timestamp {
    /// Strictly earlier than `other`.
    pub open spec fn before(self, other: Timestamp) -> bool {
        self.secs < other.secs || (self.secs == other.secs && self.nanos < other.nanos)
    }

    /// Not later than `other`.
    pub open spec fn at_most(self, other: Timestamp) -> bool {
        self.before(other) || self == other
    }

    /// The point in time with these parts.
    pub fn new(secs: i64, nanos: u32) -> (t: Timestamp)
        ensures
            t.secs == secs,
            t.nanos == nanos,
    {
        Timestamp { secs, nanos }
    }

    /// Whether this point is strictly earlier than `other`.
    pub fn is_before(&self, other: &Timestamp) -> (r: bool)
        ensures
            r == self.before(*other),
    {
        self.secs < other.secs || (self.secs == other.secs && self.nanos < other.nanos)
    }

    /// Whether this point is not later than `other`.
    pub fn is_at_most(&self, other: &Timestamp) -> (r: bool)
        ensures
            r == self.at_most(*other),
    {
        self.secs < other.secs || (self.secs == other.secs && self.nanos <= other.nanos)
    }
}

/// What `chrono` writes for the UTC date and time at `secs` seconds and
/// `nanos` nanoseconds after the epoch under the pattern `%Y%m%d_%H%M%S`, or
/// `None` where `chrono` has no date for these numbers.
pub uninterp spec fn compact_stamp(secs: int, nanos: int) -> Option<Seq<char>>;

/// Reads the system clock through `chrono::Utc::now` and hands back its
/// `timestamp` and `timestamp_subsec_nanos`. Nothing is claimed of the
/// result. `chrono` stops the program where the clock stands before 1970.
#[verifier::external_body]
pub(crate) fn system_now() -> (t: Timestamp) {
    let now = chrono::Utc::now();
    Timestamp { secs: now.timestamp(), nanos: now.timestamp_subsec_nanos() }
}

/// Asks `chrono::DateTime::from_timestamp` for the UTC date and time and has
/// `DateTime::format` write it as `%Y%m%d_%H%M%S`. The contract only names
/// the text: the same numbers always give the same text.
#[verifier::external_body]
pub(crate) fn write_compact_stamp(secs: i64, nanos: u32) -> (r: Option<String>)
    ensures
        r.is_some() == compact_stamp(secs as int, nanos as int).is_some(),
        r.is_some() ==> r.unwrap()@ == compact_stamp(secs as int, nanos as int).unwrap(),
{
    let time = chrono::DateTime::from_timestamp(secs, nanos)?;
    Some(time.format("%Y%m%d_%H%M%S").to_string())
}

/// What `chrono` writes for the UTC date and time at `secs` seconds and
/// `nanos` nanoseconds after the epoch under the pattern
/// `%Y-%m-%d %H:%M:%S UTC`, or `None` where `chrono` has no date for these numbers.
pub uninterp spec fn display_stamp(secs: int, nanos: int) -> Option<Seq<char>>;

/// Asks `chrono::DateTime::from_timestamp` for the UTC date and time and has
/// `DateTime::format` write it as `%Y-%m-%d %H:%M:%S UTC`. The contract only
/// names the text: the same numbers always give the same text.
#[verifier::external_body]
pub(crate) fn write_display_stamp(secs: i64, nanos: u32) -> (r: Option<String>)
    ensures
        r.is_some() == display_stamp(secs as int, nanos as int).is_some(),
        r.is_some() ==> r.unwrap()@ == display_stamp(secs as int, nanos as int).unwrap(),
{
    let time = chrono::DateTime::from_timestamp(secs, nanos)?;
    Some(time.format("%Y-%m-%d %H:%M:%S UTC").to_string())
}

} // verus!
