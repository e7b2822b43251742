//! The proleptic Gregorian calendar, as far as the clock needs it: which
//! years are leap years, how instants lie on the time line, and where the
//! year and the day that hold an instant begin.

use vstd::prelude::*;
use crate::duration::day_duration;
use crate::duration::Duration;
use crate::duration::NANOS_PER_DAY;
use crate::duration::NANOS_PER_SECOND;
use crate::fraction::lemma_ratio_in_unit_interval;
use crate::fraction::Fraction;

verus! {

/// The first year an instant may lie in.
pub const MIN_YEAR: i32 = -9999;

/// The last year an instant may lie in.
pub const MAX_YEAR: i32 = 9999;

/// The largest distance from UTC, in seconds, that an offset may have: 25:59:59.
pub const MAX_OFFSET_SECONDS: i32 = 93_599;

/// Leap years are those divisible by 4, but not by 100 unless also by 400.
pub open spec fn leap_year(year: int) -> bool {
    year % 4 == 0 && (year % 100 != 0 || year % 400 == 0)
}

/// The number of days of a year.
pub open spec fn year_length_days(year: int) -> int {
    if leap_year(year) {
        366
    } else {
        365
    }
}

/// The number of days from the first day of `MIN_YEAR` to the first day of `year`.
pub open spec fn days_before_year(year: int) -> int
    decreases year - MIN_YEAR,
{
    if year <= MIN_YEAR {
        0
    } else {
        days_before_year(year - 1) + year_length_days(year - 1)
    }
}

/// The length of a year in nanoseconds: its days, each of 24 hours.
pub open spec fn year_length_nanos(year: int) -> int {
    year_length_days(year) * NANOS_PER_DAY
}

/// The number of leap years from the year 1 up to, but not including, `year`,
/// counted back below zero for the years before.
pub open spec fn leap_years_before(year: int) -> int {
    (year - 1) / 4 - (year - 1) / 100 + (year - 1) / 400
}

/// The count of leap years grows by one after each leap year, and only then.
proof fn lemma_leap_years_are_counted(year: int)
    ensures
        leap_years_before(year + 1) - leap_years_before(year) == if leap_year(year) {
            1int
        } else {
            0int
        },
{
    assert(year / 4 - (year - 1) / 4 == if year % 4 == 0 {
        1int
    } else {
        0int
    });
    assert(year / 100 - (year - 1) / 100 == if year % 100 == 0 {
        1int
    } else {
        0int
    });
    assert(year / 400 - (year - 1) / 400 == if year % 400 == 0 {
        1int
    } else {
        0int
    });
    assert(year % 400 == 0 ==> year % 100 == 0);
    assert(year % 100 == 0 ==> year % 4 == 0);
}

/// The days before a year are 365 for each year since `MIN_YEAR`, and one
/// more for each leap year among them.
pub proof fn lemma_days_before_year_counted(year: int)
    requires
        MIN_YEAR <= year,
    ensures
        days_before_year(year) == 365 * (year - MIN_YEAR) + leap_years_before(year)
            - leap_years_before(MIN_YEAR as int),
    decreases year - MIN_YEAR,
{
    if year > MIN_YEAR {
        lemma_days_before_year_counted(year - 1);
        lemma_leap_years_are_counted(year - 1);
    }
}

/// Whether `year` is a leap year.
pub fn is_leap_year(year: i32) -> (leap: bool)
    ensures
        leap == leap_year(year as int),
{
    year % 4 == 0 && (year % 100 != 0 || year % 400 == 0)
}

/// The number of days of `year`: 366 in a leap year, else 365.
pub fn days_in_year(year: i32) -> (days: u16)
    ensures
        days == year_length_days(year as int),
{
    if is_leap_year(year) {
        366
    } else {
        365
    }
}

/// A point in time, held as the local calendar reading at some offset from UTC.
///
/// The date is a year and the day's number within it, counted from 1.
#[derive(Clone, Copy, Debug, PartialEq, Eq, Structural)]
pub struct Instant {
    /// The year's number; the year before the year 1 is the year 0.
    pub year: i32,
    /// The day's number within the year, counted from 1.
    pub ordinal: u16,
    /// The hour of the day, from 0 to 23.
    pub hour: u8,
    /// The minute of the hour.
    pub minute: u8,
    /// The second of the minute.
    pub second: u8,
    /// The nanosecond of the second.
    pub nanosecond: u32,
    /// How far the reading lies ahead of UTC, in seconds; negative to the west.
    pub offset_seconds: i32,
}

/// Whether an offset from UTC, in seconds, is one that an instant may carry.
pub open spec fn offset_in_range(offset_seconds: int) -> bool {
    -MAX_OFFSET_SECONDS <= offset_seconds <= MAX_OFFSET_SECONDS
}

impl Instant {
    /// The reading names a day that exists, a time of day, and an offset in range.
    pub open spec fn valid(self) -> bool {
        &&& MIN_YEAR <= self.year <= MAX_YEAR
        &&& 1 <= self.ordinal <= year_length_days(self.year as int)
        &&& self.hour < 24
        &&& self.minute < 60
        &&& self.second < 60
        &&& self.nanosecond < NANOS_PER_SECOND
        &&& offset_in_range(self.offset_seconds as int)
    }

    /// The number of the local day, counted from the first day of `MIN_YEAR`.
    pub open spec fn day_number(self) -> int {
        days_before_year(self.year as int) + self.ordinal - 1
    }

    /// Nanoseconds since local midnight.
    pub open spec fn nanos_of_day(self) -> int {
        (self.hour * 3600 + self.minute * 60 + self.second) * NANOS_PER_SECOND + self.nanosecond
    }

    /// The instant's place on the time line: nanoseconds since midnight UTC
    /// of the first day of `MIN_YEAR`.
    pub open spec fn timeline_nanos(self) -> int {
        self.day_number() * NANOS_PER_DAY + self.nanos_of_day() - self.offset_seconds
            * NANOS_PER_SECOND
    }

    /// Midnight on the first day of `year`, read at `offset_seconds` from UTC.
    pub open spec fn start_of_year(year: i32, offset_seconds: i32) -> Instant {
        Instant {
            year,
            ordinal: 1,
            hour: 0,
            minute: 0,
            second: 0,
            nanosecond: 0,
            offset_seconds,
        }
    }

    /// Midnight on the day of the year with number `ordinal`, read at `offset_seconds` from UTC.
    pub open spec fn start_of_day(year: i32, ordinal: u16, offset_seconds: i32) -> Instant {
        Instant { year, ordinal, hour: 0, minute: 0, second: 0, nanosecond: 0, offset_seconds }
    }

    /// Builds an instant from its parts, or nothing if they name no instant.
    pub fn new(
        year: i32,
        ordinal: u16,
        hour: u8,
        minute: u8,
        second: u8,
        nanosecond: u32,
        offset_seconds: i32,
    ) -> (made: Option<Instant>)
        ensures
            made == (if (Instant {
                year,
                ordinal,
                hour,
                minute,
                second,
                nanosecond,
                offset_seconds,
            }).valid() {
                Some(Instant { year, ordinal, hour, minute, second, nanosecond, offset_seconds })
            } else {
                None
            }),
    {
        if year < MIN_YEAR || year > MAX_YEAR {
            return None;
        }
        if ordinal < 1 || ordinal > days_in_year(year) {
            return None;
        }
        if hour >= 24 || minute >= 60 || second >= 60 || nanosecond >= 1_000_000_000 {
            return None;
        }
        if offset_seconds < -MAX_OFFSET_SECONDS || offset_seconds > MAX_OFFSET_SECONDS {
            return None;
        }
        Some(Instant { year, ordinal, hour, minute, second, nanosecond, offset_seconds })
    }
}

/// The time from `earlier` to `later`, negative if `later` comes first.
///
/// Trusted, not proved. The body hands each instant's parts to `time`
/// (`Date::from_ordinal_date`, `Time::from_hms_nano`,
/// `UtcOffset::from_whole_seconds`, `OffsetDateTime::new_in_offset`), which
/// takes the parts of every valid instant, and subtracts the two
/// `OffsetDateTime`s. The contract claims of that subtraction that it
/// returns the distance of the two moments on the time line of the proleptic
/// Gregorian calendar: the whole days between the two local dates, and the
/// difference of the times of day, less the difference of the offsets.
/// `lemma_days_before_year_counted` gives the count of days in closed form.
#[verifier::external_body]
pub(crate) fn elapsed_between(later: &Instant, earlier: &Instant) -> (elapsed: Duration)
    requires
        later.valid(),
        earlier.valid(),
    ensures
        elapsed.nanos == later.timeline_nanos() - earlier.timeline_nanos(),
{
    let later = time::OffsetDateTime::new_in_offset(
        time::Date::from_ordinal_date(later.year, later.ordinal).unwrap(),
        time::Time::from_hms_nano(later.hour, later.minute, later.second, later.nanosecond)
            .unwrap(),
        time::UtcOffset::from_whole_seconds(later.offset_seconds).unwrap(),
    );
    let earlier = time::OffsetDateTime::new_in_offset(
        time::Date::from_ordinal_date(earlier.year, earlier.ordinal).unwrap(),
        time::Time::from_hms_nano(earlier.hour, earlier.minute, earlier.second, earlier.nanosecond)
            .unwrap(),
        time::UtcOffset::from_whole_seconds(earlier.offset_seconds).unwrap(),
    );
    Duration { nanos: (later - earlier).whole_nanoseconds() }
}

/// The year that holds `instant`: midnight on its first day, read at the
/// instant's own offset, and the time from there to midnight on the first
/// day of the next year.
///
/// The length comes from subtracting the two dates, so a leap year is 366
/// days long. The last year of the calendar has no next year to measure to.
pub fn year_bounds(instant: &Instant) -> (bounds: (Instant, Duration))
    requires
        instant.valid(),
        instant.year < MAX_YEAR,
    ensures
        bounds.0 == Instant::start_of_year(instant.year, instant.offset_seconds),
        bounds.0.valid(),
        bounds.1.nanos == year_length_nanos(instant.year as int),
{
    let start = Instant {
        year: instant.year,
        ordinal: 1,
        hour: 0,
        minute: 0,
        second: 0,
        nanosecond: 0,
        offset_seconds: instant.offset_seconds,
    };
    let end = Instant {
        year: instant.year + 1,
        ordinal: 1,
        hour: 0,
        minute: 0,
        second: 0,
        nanosecond: 0,
        offset_seconds: instant.offset_seconds,
    };
    let length = elapsed_between(&end, &start);
    assert(end.day_number() - start.day_number() == year_length_days(instant.year as int));
    (start, length)
}

/// The day that holds `instant`: its midnight, read at the instant's own
/// offset, and the fixed length of 24 hours.
pub fn day_bounds(instant: &Instant) -> (bounds: (Instant, Duration))
    requires
        instant.valid(),
    ensures
        bounds.0 == Instant::start_of_day(
            instant.year,
            instant.ordinal,
            instant.offset_seconds,
        ),
        bounds.0.valid(),
        bounds.1.nanos == NANOS_PER_DAY,
{
    let start = Instant {
        year: instant.year,
        ordinal: instant.ordinal,
        hour: 0,
        minute: 0,
        second: 0,
        nanosecond: 0,
        offset_seconds: instant.offset_seconds,
    };
    (start, day_duration())
}

/// How far `instant` lies into the span of length `duration` that begins at
/// `start`, as the exact ratio of the time elapsed to the length.
///
/// The ratio is at least 0 and below 1 for every instant from `start` up to,
/// but not including, the end of the span. At `start` itself it is 0.
pub fn fraction_of(instant: &Instant, start: &Instant, duration: Duration) -> (part: Fraction)
    requires
        instant.valid(),
        start.valid(),
        duration.nanos > 0,
    ensures
        part.num == instant.timeline_nanos() - start.timeline_nanos(),
        part.den == duration.nanos,
        0 <= instant.timeline_nanos() - start.timeline_nanos() < duration.nanos ==> 0 as real
            <= part.value() < 1 as real,
        instant.timeline_nanos() == start.timeline_nanos() ==> part.value() == 0 as real,
{
    let elapsed = elapsed_between(instant, start);
    let part = Fraction { num: elapsed.nanos, den: duration.nanos };
    proof {
        lemma_ratio_in_unit_interval(part.num as int, part.den as int);
    }
    part
}

} // verus!
