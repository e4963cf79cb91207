//! The instant at which screens are captured, and the half-hour bucket it falls into.
use crate::text::opt_text;
use vstd::prelude::*;

verus! {

/// A recording segment covers at most this many seconds of a clock's half hours.
pub const SEGMENT_LENGTH_SECONDS: i64 = 1800;

/// No instant with a calendar date lies further than this many seconds from 1970.
pub const MAX_SECONDS: i64 = 186_000_000_000_000;

/// The notation in which a file name tells when its segment began.
pub const STAMP_FORMAT: &'static str = "%Y-%m-%dT%H-%M-%SZ";

/// The UTC date and time of a Unix timestamp in a given notation, as chrono writes it; `None`
/// where chrono's calendar does not reach.
pub uninterp spec fn utc_text(timestamp: i64, format: Seq<char>) -> Option<Seq<char>>;

/// The UTC date and time of a Unix timestamp, as a file name tells it.
pub open spec fn utc_stamp(timestamp: i64) -> Option<Seq<char>> {
    utc_text(timestamp, STAMP_FORMAT@)
}

/// `chrono::DateTime::from_timestamp`, and `format` on the date it gives. Claimed: the text is
/// a function of timestamp and notation; it holds no `/`, as it is made of digits, `-`, `+`,
/// `T` and `Z`; a date exists only for a timestamp whose day number fits 32 bits. A notation
/// that chrono does not know would panic; all but the one above are left out.
#[verifier::external_body]
fn format_utc(timestamp: i64, format: &str) -> (stamp: Option<String>)
    requires
        format@ == STAMP_FORMAT@,
    ensures
        opt_text(stamp) == utc_text(timestamp, format@),
        stamp matches Some(stamp) ==> !stamp@.contains('/'),
        stamp is Some ==> -MAX_SECONDS <= timestamp <= MAX_SECONDS,
{
    chrono::DateTime::from_timestamp(timestamp, 0).map(|at| at.format(format).to_string())
}

/// An instant that has a calendar date: a Unix timestamp together with its UTC notation.
#[derive(Debug)]
pub struct CaptureTime {
    seconds: i64,
    stamp: String,
}

impl CaptureTime {
    #[verifier::type_invariant]
    spec fn dated(&self) -> bool {
        &&& utc_stamp(self.seconds) == Some(self.stamp@)
        &&& !self.stamp@.contains('/')
        &&& -MAX_SECONDS <= self.seconds <= MAX_SECONDS
    }

    /// Seconds since 1970-01-01T00:00:00Z.
    pub closed spec fn seconds(&self) -> i64 {
        self.seconds
    }

    /// The instant's UTC date and time as text.
    pub closed spec fn stamp(&self) -> Seq<char> {
        self.stamp@
    }

    /// The instant of a Unix timestamp, where it has a calendar date.
    pub fn from_timestamp(timestamp: i64) -> (at: Option<CaptureTime>)
        ensures
            match at {
                Some(at) => at.seconds() == timestamp && utc_stamp(timestamp) == Some(at.stamp()),
                None => utc_stamp(timestamp) is None,
            },
    {
        match format_utc(timestamp, STAMP_FORMAT) {
            Some(stamp) => Some(CaptureTime { seconds: timestamp, stamp }),
            None => None,
        }
    }

    pub fn timestamp(&self) -> (seconds: i64)
        ensures
            seconds == self.seconds(),
            -MAX_SECONDS <= seconds <= MAX_SECONDS,
    {
        proof {
            use_type_invariant(self);
        }
        self.seconds
    }

    pub fn utc(&self) -> (stamp: &str)
        ensures
            stamp@ == self.stamp(),
            utc_stamp(self.seconds()) == Some(stamp@),
            !stamp@.contains('/'),
    {
        proof {
            use_type_invariant(self);
        }
        self.stamp.as_str()
    }
}

/// The start of the half hour that `seconds` falls into, counted away from 1970.
pub open spec fn bucket_of(seconds: int) -> int {
    if seconds >= 0 {
        seconds - seconds % (SEGMENT_LENGTH_SECONDS as int)
    } else {
        seconds + (-seconds) % (SEGMENT_LENGTH_SECONDS as int)
    }
}

/// The start of the half hour that an instant falls into.
pub fn bucket_start_at(captured_at: &CaptureTime) -> (start: i64)
    ensures
        start == bucket_of(captured_at.seconds() as int),
{
    let seconds: i64 = captured_at.timestamp();
    if seconds >= 0 {
        seconds - seconds % SEGMENT_LENGTH_SECONDS
    } else {
        seconds + (-seconds) % SEGMENT_LENGTH_SECONDS
    }
}

/// From 1970 on, a bucket starts at a multiple of its length, at or before each of its
/// instants and less than its length before it.
pub proof fn bucket_contains_instant(seconds: int)
    requires
        seconds >= 0,
    ensures
        bucket_of(seconds) % (SEGMENT_LENGTH_SECONDS as int) == 0,
        bucket_of(seconds) <= seconds < bucket_of(seconds) + SEGMENT_LENGTH_SECONDS,
{
}

/// From 1970 on, all instants of a half hour of the clock, and no others, share the bucket that
/// begins with it; before 1970 buckets mirror those after.
pub proof fn buckets_are_half_hours(half_hours: int, within: int)
    requires
        0 <= half_hours,
        0 <= within < 1800,
    ensures
        bucket_of(half_hours * 1800 + within) == half_hours * 1800,
        bucket_of(-(half_hours * 1800 + within)) == -(half_hours * 1800),
{
}

/// From 1970 on, two instants share a bucket exactly when the same number of whole bucket
/// lengths precedes them.
pub proof fn bucket_is_shared_within_length(a: int, b: int)
    requires
        a >= 0,
        b >= 0,
    ensures
        bucket_of(a) == bucket_of(b) <==> a / (SEGMENT_LENGTH_SECONDS as int) == b / (
        SEGMENT_LENGTH_SECONDS as int),
{
}

/// An instant is noted as its UTC date and time, from the year to the second.
pub proof fn stamp_is_date_and_time(timestamp: i64)
    ensures
        utc_stamp(timestamp) == utc_text(timestamp, "%Y-%m-%dT%H-%M-%SZ"@),
{
}

} // verus!
