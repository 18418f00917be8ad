//! Instants, and how many whole days lie between two of them.
use vstd::prelude::*;

verus! {

/// Seconds, counted from the start of 1970, of the earliest instant of the calendar.
pub const MIN_SECONDS: i64 = -8_334_601_228_800;

/// Seconds, counted from the start of 1970, of the last second of the calendar.
pub const MAX_SECONDS: i64 = 8_210_266_876_799;

/// An instant in UTC with nanosecond precision.
#[derive(Clone, Copy, Debug, PartialEq, Eq)]
pub struct Timestamp {
    seconds: i64,
    nanos: u32,
}

impl View for Timestamp {
    type V = int;

    /// Nanoseconds since the start of 1970.
    closed spec fn view(&self) -> int {
        self.seconds * 1_000_000_000 + self.nanos
    }
}

/// Whole days between two instants, rounded towards zero.
pub open spec fn whole_days(later: int, earlier: int) -> int {
    let day = 86_400_000_000_000int;
    if later >= earlier {
        (later - earlier) / day
    } else {
        -((earlier - later) / day)
    }
}

impl Timestamp {
    #[verifier::type_invariant]
    closed spec fn in_calendar(self) -> bool {
        &&& MIN_SECONDS <= self.seconds <= MAX_SECONDS
        &&& self.nanos < 1_000_000_000
    }

    /// The instant `nanos` nanoseconds after second `seconds` of Unix time.
    pub fn new(seconds: i64, nanos: u32) -> (instant: Option<Timestamp>)
        ensures
            instant is Some <==> MIN_SECONDS <= seconds <= MAX_SECONDS && nanos < 1_000_000_000,
            instant matches Some(t) ==> t@ == seconds * 1_000_000_000 + nanos,
    {
        if MIN_SECONDS <= seconds && seconds <= MAX_SECONDS && nanos < 1_000_000_000 {
            Some(Timestamp { seconds, nanos })
        } else {
            None
        }
    }

    /// The second that the instant lies in, and the nanoseconds since that second began.
    pub fn parts(&self) -> (parts: (i64, u32))
        ensures
            parts.0 * 1_000_000_000 + parts.1 == self@,
            parts.1 < 1_000_000_000,
            MIN_SECONDS <= parts.0 <= MAX_SECONDS,
    {
        proof {
            use_type_invariant(self);
        }
        (self.seconds, self.nanos)
    }

    /// Whole days from `earlier` to this instant, rounded towards zero.
    pub fn days_since(&self, earlier: &Timestamp) -> (days: i64)
        ensures
            days == whole_days(self@, earlier@),
    {
        let (to_seconds, to_nanos) = self.parts();
        let (from_seconds, from_nanos) = earlier.parts();
        num_days_between(to_seconds, to_nanos, from_seconds, from_nanos)
    }
}

/// Subtracts two `chrono::DateTime<Utc>` values and reads `TimeDelta::num_days`
/// of the difference. Claimed: the result is the difference in whole days,
/// rounded towards zero. The instants are handed over as Unix seconds and
/// nanoseconds inside chrono's calendar and outside of leap seconds, for which
/// `DateTime::from_timestamp` succeeds and the subtraction cannot overflow.
#[verifier::external_body]
fn num_days_between(to_seconds: i64, to_nanos: u32, from_seconds: i64, from_nanos: u32) -> (days:
    i64)
    requires
        MIN_SECONDS <= to_seconds <= MAX_SECONDS,
        MIN_SECONDS <= from_seconds <= MAX_SECONDS,
        to_nanos < 1_000_000_000,
        from_nanos < 1_000_000_000,
    ensures
        days == whole_days(
            to_seconds * 1_000_000_000 + to_nanos,
            from_seconds * 1_000_000_000 + from_nanos,
        ),
{
    let to = chrono::DateTime::<chrono::Utc>::from_timestamp(to_seconds, to_nanos).unwrap();
    let from = chrono::DateTime::<chrono::Utc>::from_timestamp(from_seconds, from_nanos).unwrap();
    (to - from).num_days()
}

/// The whole days between two instants are what fits between them, and they
/// change their sign when the instants change places.
pub proof fn law_whole_days_fit(later: int, earlier: int)
    ensures
        later >= earlier ==> {
            &&& 0 <= whole_days(later, earlier)
            &&& whole_days(later, earlier) * 86_400_000_000_000 <= later - earlier
            &&& later - earlier < (whole_days(later, earlier) + 1) * 86_400_000_000_000
        },
        whole_days(earlier, later) == -whole_days(later, earlier),
{
}

} // verus!
