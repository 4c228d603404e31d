//! Clocks and moments. What a clock shows is outside the library's control, so nothing is said
//! of it.

use vstd::prelude::*;

verus! {

/// A moment of the monotonic clock.
#[verifier::external_type_specification]
#[verifier::external_body]
pub struct ExInstant(std::time::Instant);

/// `std::time::Instant::now`: the current moment.
pub assume_specification[ std::time::Instant::now ]() -> std::time::Instant;

/// `std::time::Instant::elapsed`, in nanoseconds.
#[verifier::external_body]
pub(crate) fn nanos_since(origin: &std::time::Instant) -> u128 {
    origin.elapsed().as_nanos()
}

/// `chrono::Utc::now`, in milliseconds since the Unix epoch: chrono counts them from the epoch on,
/// and does not return while the clock of the machine stands before it.
#[verifier::external_body]
pub(crate) fn now_millis() -> (millis: i64)
    ensures
        millis >= 0,
{
    chrono::Utc::now().timestamp_millis()
}

/// A moment in UTC: whole seconds since the Unix epoch, and nanoseconds past them. A billion
/// nanoseconds or more stand for a leap second.
#[derive(Debug, Clone, Copy, PartialEq, Eq, Structural)]
pub struct Moment {
    pub secs: i64,
    pub nanos: u32,
}

/// The moment that an RFC 3339 text denotes; `None` for any other text.
pub uninterp spec fn rfc3339_moment(timestamp: Seq<char>) -> Option<Moment>;

/// `chrono::DateTime::parse_from_rfc3339`: the moment depends on the text alone. The year has
/// four digits and the offset is less than a day, which bounds the seconds; the nanoseconds
/// stay below two seconds.
#[verifier::external_body]
pub(crate) fn parse_rfc3339(timestamp: &str) -> (moment: Option<Moment>)
    ensures
        moment == rfc3339_moment(timestamp@),
        moment matches Some(at) ==> at.is_civil(),
{
    match chrono::DateTime::parse_from_rfc3339(timestamp) {
        Ok(at) => Some(Moment { secs: at.timestamp(), nanos: at.timestamp_subsec_nanos() }),
        Err(_) => None,
    }
}

impl Moment {
    /// Within the years of four digits.
    pub open spec fn is_civil(self) -> bool {
        -62_167_305_600 <= self.secs <= 253_402_387_199 && self.nanos < 2_000_000_000
    }

    /// Its milliseconds are a number of 64 bits, as those of every date that chrono knows.
    pub open spec fn is_countable(self) -> bool {
        -9_223_372_036_854_000 <= self.secs <= 9_223_372_036_854_000 && self.nanos < 2_000_000_000
    }

    /// Milliseconds since the Unix epoch, without the fraction.
    pub open spec fn millis(self) -> int {
        self.secs * 1000 + self.nanos as int / 1_000_000
    }

    /// The second of the day.
    pub open spec fn second_of_day(self) -> int {
        self.secs as int % 86_400
    }

    /// One for each leap second that the difference of the whole seconds leaves out.
    pub open spec fn leap_between(self, earlier: Moment) -> int {
        if self.second_of_day() > earlier.second_of_day() && earlier.nanos >= 1_000_000_000 {
            1
        } else if self.second_of_day() < earlier.second_of_day() && self.nanos >= 1_000_000_000 {
            -1
        } else {
            0
        }
    }

    /// Nanoseconds from `earlier` to this moment.
    pub open spec fn nanos_after(self, earlier: Moment) -> int {
        (self.secs - earlier.secs + self.leap_between(earlier)) * 1_000_000_000 + (self.nanos
            - earlier.nanos)
    }

    /// Whether the two moments are at most so many milliseconds apart; what is left of the last
    /// millisecond does not count.
    pub open spec fn within(self, other: Moment, millis: int) -> bool {
        -(millis + 1) * 1_000_000 < self.nanos_after(other) < (millis + 1) * 1_000_000
    }

    pub fn to_millis(&self) -> (millis: i64)
        requires
            self.is_countable(),
        ensures
            millis == self.millis(),
    {
        self.secs * 1000 + (self.nanos / 1_000_000) as i64
    }

    pub fn is_within(&self, other: &Moment, millis: u32) -> (answer: bool)
        ensures
            answer == self.within(*other, millis as int),
    {
        let day: i128 = 86_400;
        let here: i128 = ((self.secs as i128) % day + day) % day;
        let there: i128 = ((other.secs as i128) % day + day) % day;
        let leap: i128 = if here > there && other.nanos >= 1_000_000_000 {
            1
        } else if here < there && self.nanos >= 1_000_000_000 {
            -1
        } else {
            0
        };
        proof {
            lemma_second_of_day(self.secs as int);
            lemma_second_of_day(other.secs as int);
        }
        let apart: i128 = (self.secs as i128 - other.secs as i128 + leap) * 1_000_000_000 + (
        self.nanos as i128 - other.nanos as i128);
        let limit: i128 = (millis as i128 + 1) * 1_000_000;
        -limit < apart && apart < limit
    }
}

/// The remainder that rounds toward zero, moved into the day, is the second of the day.
proof fn lemma_second_of_day(secs: int)
    ensures
        secs >= 0 ==> (secs % 86_400 + 86_400) % 86_400 == secs % 86_400,
        secs < 0 ==> (-((-secs) % 86_400) + 86_400) % 86_400 == secs % 86_400,
{
}

} // verus!
