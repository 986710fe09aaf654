//! Points in time, and the whole seconds between them.

use vstd::prelude::*;

verus! {

/// The first second that a UTC calendar date can name: the start of the year -262143.
pub const MIN_TIMESTAMP_SECS: i64 = -8_334_601_228_800;

/// The last second that a UTC calendar date can name: the end of the year 262142.
pub const MAX_TIMESTAMP_SECS: i64 = 8_210_266_876_799;

/// A point in time: seconds since the Unix epoch, and the nanoseconds past that second.
#[derive(Debug, Clone, Copy, PartialEq, Eq)]
pub struct Timestamp {
    secs: i64,
    nanos: u32,
}

/// Whether seconds and nanoseconds name a point in time that is no leap second.
pub open spec fn is_timestamp(secs: int, nanos: int) -> bool {
    &&& MIN_TIMESTAMP_SECS <= secs <= MAX_TIMESTAMP_SECS
    &&& 0 <= nanos < 1_000_000_000
}

/// `dividend / divisor`, rounded toward zero.
pub open spec fn truncated_quotient(dividend: int, divisor: int) -> int {
    if dividend >= 0 {
        dividend / divisor
    } else {
        -((-dividend) / divisor)
    }
}

/// What a signed 64-bit number is when its bits are read as an unsigned number.
pub open spec fn as_unsigned(n: int) -> int {
    n % 0x1_0000_0000_0000_0000
}

/// The number of whole seconds from `start` to `end`, read as an unsigned number.
pub open spec fn elapsed_seconds(start: Timestamp, end: Timestamp) -> int {
    as_unsigned(truncated_quotient(end@ - start@, 1_000_000_000))
}

impl View for Timestamp {
    type V = int;

    /// Nanoseconds since the Unix epoch.
    closed spec fn view(&self) -> int {
        self.secs * 1_000_000_000 + self.nanos
    }
}

impl Timestamp {
    #[verifier::type_invariant]
    spec fn in_range(self) -> bool {
        is_timestamp(self.secs as int, self.nanos as int)
    }

    /// The point in time with these seconds and nanoseconds, if there is one.
    pub fn new(secs: i64, nanos: u32) -> (result: Option<Timestamp>)
        ensures
            result is Some <==> is_timestamp(secs as int, nanos as int),
            result matches Some(t) ==> t@ == secs * 1_000_000_000 + nanos,
    {
        if MIN_TIMESTAMP_SECS <= secs && secs <= MAX_TIMESTAMP_SECS && nanos < 1_000_000_000 {
            Some(Timestamp { secs, nanos })
        } else {
            None
        }
    }

    /// The whole seconds from `start` to this point in time; before `start` the count is negative,
    /// and its bits are read as an unsigned number.
    pub fn elapsed_seconds_since(&self, start: &Timestamp) -> (result: u64)
        ensures
            result == elapsed_seconds(*start, *self),
    {
        proof {
            use_type_invariant(self);
            use_type_invariant(start);
        }
        let seconds: i64 = whole_seconds_between(start.secs, start.nanos, self.secs, self.nanos);
        signed_bits(seconds)
    }
}

/// `DateTime::signed_duration_since` and `TimeDelta::num_seconds` of chrono, on the UTC times that
/// `DateTime::from_timestamp` makes of the arguments: the distance from the first to the second,
/// in whole seconds, rounded toward zero.
#[verifier::external_body]
fn whole_seconds_between(start_secs: i64, start_nanos: u32, end_secs: i64, end_nanos: u32) -> (result:
    i64)
    requires
        is_timestamp(start_secs as int, start_nanos as int),
        is_timestamp(end_secs as int, end_nanos as int),
    ensures
        result == truncated_quotient(
            (end_secs * 1_000_000_000 + end_nanos) - (start_secs * 1_000_000_000 + start_nanos),
            1_000_000_000,
        ),
{
    let start = chrono::DateTime::from_timestamp(start_secs, start_nanos).unwrap();
    let end = chrono::DateTime::from_timestamp(end_secs, end_nanos).unwrap();
    end.signed_duration_since(start).num_seconds()
}

/// The bits of a signed number, read as an unsigned number.
fn signed_bits(n: i64) -> (result: u64)
    ensures
        result == as_unsigned(n as int),
{
    let result: u64 = #[verifier::truncate]
    (n as u64);
    assert(n >= 0 ==> n as u64 == n) by (bit_vector);
    assert(n < 0 ==> n as u64 == n + 0x1_0000_0000_0000_0000) by (bit_vector);
    result
}

/// Whether a number is the whole seconds from `start` to `end`: where `end` is not before `start`,
/// the most seconds that fit between them; where it is before, the negative of the most seconds that
/// fit, with its bits read as an unsigned number.
pub open spec fn are_seconds_between(start: Timestamp, end: Timestamp, seconds: int) -> bool {
    let two64: int = 0x1_0000_0000_0000_0000;
    let back = if seconds == 0 {
        0
    } else {
        two64 - seconds
    };
    &&& 0 <= seconds < two64
    &&& start@ <= end@ ==> seconds * 1_000_000_000 <= end@ - start@ < (seconds + 1)
        * 1_000_000_000
    &&& end@ < start@ ==> back * 1_000_000_000 <= start@ - end@ < (back + 1) * 1_000_000_000
}

/// Between points in time that are less than 2^63 seconds apart, as all are that can be made, the
/// elapsed seconds are the most whole seconds that fit between them.
pub proof fn law_elapsed_seconds_fit_between(start: Timestamp, end: Timestamp)
    requires
        -0x8000_0000_0000_0000 * 1_000_000_000 < end@ - start@ < 0x8000_0000_0000_0000
            * 1_000_000_000,
    ensures
        are_seconds_between(start, end, elapsed_seconds(start, end)),
{
}

/// A point in time is named exactly by the seconds of the years -262143 to 262142 and fewer than a
/// thousand million nanoseconds; any two of them are less than 2^63 seconds apart.
pub proof fn law_points_in_time(secs: int, nanos: int)
    ensures
        is_timestamp(secs, nanos) <==> {
            &&& -8_334_601_228_800 <= secs <= 8_210_266_876_799
            &&& 0 <= nanos <= 999_999_999
        },
        is_timestamp(secs, nanos) ==> -0x4000_0000_0000_0000 * 1_000_000_000 < secs * 1_000_000_000
            + nanos < 0x4000_0000_0000_0000 * 1_000_000_000,
{
}

} // verus!
