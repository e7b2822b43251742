//! The clock engine: it remembers the year and the day it last looked at,
//! works them out again only when an instant falls outside them, and reads
//! an instant as its place in the year and in the day.

use vstd::prelude::*;
use vstd::string::StringExecFns;
use crate::calendar::day_bounds;
use crate::calendar::fraction_of;
use crate::calendar::year_bounds;
use crate::calendar::year_length_days;
use crate::calendar::year_length_nanos;
use crate::calendar::Instant;
use crate::calendar::offset_in_range;
use crate::calendar::MAX_YEAR;
use crate::decimal::decimal_text;
use crate::duration::day_duration;
use crate::duration::Duration;
use crate::duration::NANOS_PER_DAY;
use crate::duration::NANOS_PER_SECOND;
use crate::fraction::lemma_ratio_difference;
use crate::fraction::lemma_ratio_in_unit_interval;
use crate::fraction::lemma_ratio_order;
use crate::fraction::lemma_ratio_sum;
use crate::fraction::lemma_ratio_whole_part;
use crate::fraction::ratio;
use crate::fraction::Fraction;
use crate::precision::lemma_day_precision;
use crate::precision::lemma_year_precision;
use crate::precision::precision_digits;
use crate::precision::precision_quantum;
use crate::precision::second_ish_precision;

verus! {

/// The time between two samples that a year of `year_nanos` calls for: half
/// the time in which the faster of the two last places shown, the year's or
/// the day's, changes once.
pub open spec fn sample_delay_nanos(year_nanos: int) -> int {
    let year_quantum = precision_quantum(year_nanos);
    let day_quantum = precision_quantum(NANOS_PER_DAY as int);
    if year_quantum <= day_quantum {
        year_quantum / 2
    } else {
        day_quantum / 2
    }
}

/// What the clock remembers of the year and the day it last worked out.
#[derive(Clone, Copy, Debug, PartialEq, Eq, Structural)]
pub struct Context {
    /// The year's number.
    pub year: i32,
    /// Midnight on the year's first day.
    pub year_start: Instant,
    /// The year's length.
    pub year_duration: Duration,
    /// The day's number within the year, counted from 0.
    pub day: u16,
    /// The day's midnight.
    pub day_start: Instant,
    /// The decimal places to show of the year reading.
    pub year_digits: usize,
    /// The time to wait between two samples.
    pub sample_delay: Duration,
}

impl Context {
    /// The context worked out at `now`, with the starts of the year and of the
    /// day read at `offset_seconds` from UTC.
    pub open spec fn at(now: Instant, offset_seconds: i32) -> Context {
        Context {
            year: now.year,
            year_start: Instant::start_of_year(now.year, offset_seconds),
            year_duration: Duration { nanos: year_length_nanos(now.year as int) as i128 },
            day: (now.ordinal - 1) as u16,
            day_start: Instant::start_of_day(now.year, now.ordinal, offset_seconds),
            year_digits: precision_digits(year_length_nanos(now.year as int)) as usize,
            sample_delay: Duration {
                nanos: sample_delay_nanos(year_length_nanos(now.year as int)) as i128,
            },
        }
    }

    /// A context is one that was worked out at some day of a year that has a next year.
    pub open spec fn wf(self) -> bool {
        &&& self.day_start.valid()
        &&& self.day_start.year < MAX_YEAR
        &&& self == Context::at(self.day_start, self.day_start.offset_seconds)
    }

    /// The context's year holds `now`, going by the year's number.
    pub open spec fn covers_year(self, now: Instant) -> bool {
        self.year == now.year
    }

    /// The context's day holds `now`, going by the numbers of the year and of the day.
    pub open spec fn covers_day(self, now: Instant) -> bool {
        self.year == now.year && self.day == now.ordinal - 1
    }

    /// Nanoseconds from the start of the context's year to `now`.
    pub open spec fn into_year(self, now: Instant) -> int {
        now.timeline_nanos() - self.year_start.timeline_nanos()
    }

    /// Nanoseconds from the start of the context's day to `now`.
    pub open spec fn into_day(self, now: Instant) -> int {
        now.timeline_nanos() - self.day_start.timeline_nanos()
    }
}

/// The reading taken at the instant that later readings are counted from.
#[derive(Clone, Copy, Debug, PartialEq, Eq, Structural)]
pub struct Basis {
    /// The year reading at the basis.
    pub year: Fraction,
    /// The day reading at the basis.
    pub day: Fraction,
    /// The offset from UTC of the basis, at which every later context is read.
    pub offset_seconds: i32,
}

/// The largest size of the numerator of a year reading that is not counted
/// from a basis: the year's number times the year's length, and the time
/// into the year.
pub const YEAR_NUMERATOR_BOUND: i128 = 320_000_000_000_000_000_000;

/// The largest numerator of a day reading: the days of a year, in
/// nanoseconds, and room for the two offsets to differ.
pub const DAY_NUMERATOR_BOUND: i128 = 32_000_000_000_000_000;

impl Basis {
    /// A basis holds two readings such as the clock hands out, and an offset in range.
    pub open spec fn wf(self) -> bool {
        &&& 0 < self.year.den <= 366 * NANOS_PER_DAY
        &&& -YEAR_NUMERATOR_BOUND <= self.year.num <= YEAR_NUMERATOR_BOUND
        &&& self.day.den == NANOS_PER_DAY
        &&& 0 <= self.day.num <= DAY_NUMERATOR_BOUND
        &&& offset_in_range(self.offset_seconds as int)
    }
}

/// What a clock holds: the basis, once one is set, and the context, once a
/// reading was taken.
pub struct ClockView {
    /// The basis, once one is set.
    pub basis: Option<Basis>,
    /// What was worked out at the last instant whose year or day was new.
    pub context: Option<Context>,
}

impl ClockView {
    /// The offset at which a context worked out at `now` is read: that of the
    /// basis if there is one, else that of `now`.
    pub open spec fn anchor_offset(self, now: Instant) -> i32 {
        match self.basis {
            Some(basis) => basis.offset_seconds,
            None => now.offset_seconds,
        }
    }

    /// The remembered year is that of `now`.
    pub open spec fn year_is_current(self, now: Instant) -> bool {
        self.context matches Some(context) && context.covers_year(now)
    }

    /// The remembered day is that of `now`.
    pub open spec fn day_is_current(self, now: Instant) -> bool {
        self.context matches Some(context) && context.covers_day(now)
    }

    /// The clock after working out the context at `now`.
    pub open spec fn recalculated(self, now: Instant) -> ClockView {
        ClockView {
            basis: self.basis,
            context: Some(Context::at(now, self.anchor_offset(now))),
        }
    }

    /// The clock after a year reading at `now`: the context is worked out
    /// again only if its year is not that of `now`.
    pub open spec fn after_year_reading(self, now: Instant) -> ClockView {
        if self.year_is_current(now) {
            self
        } else {
            self.recalculated(now)
        }
    }

    /// The clock after a day reading at `now`: the context is worked out
    /// again only if its day, or its year, is not that of `now`.
    pub open spec fn after_day_reading(self, now: Instant) -> ClockView {
        if self.day_is_current(now) {
            self
        } else {
            self.recalculated(now)
        }
    }

    /// The clock after taking `time` for its basis: the year reading is
    /// taken first and the day reading after it, as any two readings are, and
    /// the two are kept with the offset of `time`.
    pub open spec fn after_set_basis(self, time: Instant) -> ClockView {
        let year_read = self.after_year_reading(time);
        let day_read = year_read.after_day_reading(time);
        ClockView {
            basis: Some(
                Basis {
                    year: Fraction {
                        num: year_read.year_numerator(time) as i128,
                        den: year_read.year_denominator(time) as i128,
                    },
                    day: Fraction { num: day_read.day_numerator(time) as i128, den: NANOS_PER_DAY },
                    offset_seconds: time.offset_seconds,
                },
            ),
            context: day_read.context,
        }
    }

    /// What the clock remembers is sound.
    pub open spec fn wf(self) -> bool {
        &&& self.context matches Some(context) ==> context.wf()
        &&& self.basis matches Some(basis) ==> basis.wf()
    }

    /// The clock reads at `offset_seconds`: its basis, if it has one, lies at
    /// that offset, and so do the starts of the year and of the day that it
    /// remembers.
    pub open spec fn reads_at(self, offset_seconds: i32) -> bool {
        &&& self.basis matches Some(basis) ==> basis.offset_seconds == offset_seconds
        &&& self.context matches Some(context) ==> context.year_start.offset_seconds
            == offset_seconds
    }

    /// The year reading at the basis, 0 where there is none.
    pub open spec fn basis_year_value(self) -> real {
        match self.basis {
            Some(basis) => basis.year.value(),
            None => 0 as real,
        }
    }

    /// The day reading at the basis, 0 where there is none.
    pub open spec fn basis_day_value(self) -> real {
        match self.basis {
            Some(basis) => basis.day.value(),
            None => 0 as real,
        }
    }

    /// The year reading at `now`: the year's number and the part of the
    /// remembered year that has passed, less the year reading at the basis.
    pub open spec fn year_value(self, now: Instant) -> real
        recommends
            self.year_is_current(now),
    {
        let context = self.context.unwrap();
        now.year as real + ratio(context.into_year(now), context.year_duration.nanos as int)
            - self.basis_year_value()
    }

    /// The numerator of the year reading at `now`.
    pub open spec fn year_numerator(self, now: Instant) -> int
        recommends
            self.year_is_current(now),
    {
        let context = self.context.unwrap();
        let absolute = now.year * context.year_duration.nanos + context.into_year(now);
        match self.basis {
            Some(basis) => absolute * basis.year.den - basis.year.num
                * context.year_duration.nanos,
            None => absolute,
        }
    }

    /// The denominator of the year reading at `now`.
    pub open spec fn year_denominator(self, now: Instant) -> int
        recommends
            self.year_is_current(now),
    {
        let context = self.context.unwrap();
        match self.basis {
            Some(basis) => context.year_duration.nanos * basis.year.den,
            None => context.year_duration.nanos as int,
        }
    }

    /// The day's number, counted from 0, and the part of the remembered day
    /// that has passed at `now`.
    pub open spec fn day_position(self, now: Instant) -> real
        recommends
            self.day_is_current(now),
    {
        let context = self.context.unwrap();
        (now.ordinal - 1) as real + ratio(context.into_day(now), NANOS_PER_DAY as int)
    }

    /// The day reading at `now`: the position in the year, in days, less that
    /// at the basis; where that would be negative, the days of the
    /// remembered year are added.
    pub open spec fn day_value(self, now: Instant) -> real
        recommends
            self.day_is_current(now),
    {
        let context = self.context.unwrap();
        let behind = self.day_position(now) - self.basis_day_value();
        if behind >= 0 as real {
            behind
        } else {
            behind + ratio(context.year_duration.nanos as int, NANOS_PER_DAY as int)
        }
    }

    /// The year reading at `now` in decimal notation, to the places worth
    /// showing of a fraction of the remembered year.
    pub open spec fn year_text(self, now: Instant) -> Seq<char>
        recommends
            self.year_is_current(now),
    {
        decimal_text(
            self.year_numerator(now),
            self.year_denominator(now),
            precision_digits(self.context.unwrap().year_duration.nanos as int),
        )
    }

    /// The day reading at `now` in decimal notation, to the places worth
    /// showing of a fraction of a day.
    pub open spec fn day_text(self, now: Instant) -> Seq<char>
        recommends
            self.day_is_current(now),
    {
        decimal_text(
            self.day_numerator(now),
            NANOS_PER_DAY as int,
            precision_digits(NANOS_PER_DAY as int),
        )
    }

    /// The numerator of the day reading at `now`, over the nanoseconds of a day.
    pub open spec fn day_numerator(self, now: Instant) -> int
        recommends
            self.day_is_current(now),
    {
        let context = self.context.unwrap();
        let position = (now.ordinal - 1) * NANOS_PER_DAY + context.into_day(now);
        let basis_position = match self.basis {
            Some(basis) => basis.day.num as int,
            None => 0,
        };
        if position >= basis_position {
            position - basis_position
        } else {
            position - basis_position + context.year_duration.nanos
        }
    }
}

/// The furthest that the offsets of an instant and of a context's starts
/// can lie apart, in nanoseconds: both are at most 25:59:59 from UTC.
pub const OFFSET_SLACK_NANOS: i128 = 187_198_000_000_000;

/// Within the context's year, the time into the year is the days passed,
/// the time of day, and what the two offsets differ by.
pub proof fn lemma_into_year(context: Context, now: Instant)
    requires
        context.wf(),
        now.valid(),
        context.covers_year(now),
    ensures
        context.into_year(now) == (now.ordinal - 1) * NANOS_PER_DAY + now.nanos_of_day()
            + (context.year_start.offset_seconds - now.offset_seconds) * NANOS_PER_SECOND,
        -OFFSET_SLACK_NANOS <= context.into_year(now) < context.year_duration.nanos
            + OFFSET_SLACK_NANOS,
        context.year_start.valid(),
        context.year_duration.nanos == year_length_nanos(now.year as int),
        365 * NANOS_PER_DAY <= context.year_duration.nanos <= 366 * NANOS_PER_DAY,
{
}

/// Within the context's day, the time into the day is the time of day and
/// what the two offsets differ by.
pub proof fn lemma_into_day(context: Context, now: Instant)
    requires
        context.wf(),
        now.valid(),
        context.covers_day(now),
    ensures
        context.into_day(now) == now.nanos_of_day()
            + (context.day_start.offset_seconds - now.offset_seconds) * NANOS_PER_SECOND,
        -OFFSET_SLACK_NANOS <= context.into_day(now) < NANOS_PER_DAY + OFFSET_SLACK_NANOS,
        context.day_start.valid(),
        365 * NANOS_PER_DAY <= context.year_duration.nanos <= 366 * NANOS_PER_DAY,
{
}

/// A product is bounded by the product of the bounds of its factors.
proof fn lemma_product_bound(a: int, b: int, a_bound: int, b_bound: int)
    requires
        -a_bound <= a <= a_bound,
        0 <= b <= b_bound,
    ensures
        -(a_bound * b_bound) <= a * b <= a_bound * b_bound,
{
    assert(-(a_bound * b_bound) <= a * b <= a_bound * b_bound) by (nonlinear_arith)
        requires
            -a_bound <= a <= a_bound,
            0 <= b <= b_bound,
    ;
}

/// The sampling engine.
pub struct Clock {
    /// The basis, once one is set.
    basis: Option<Basis>,
    /// What was worked out at the last instant whose year or day was new.
    context: Option<Context>,
    /// The decimal places to show of the day reading.
    day_digits: usize,
    /// The time in which the last place shown of the day reading changes once.
    day_sample_duration: Duration,
}

impl View for Clock {
    type V = ClockView;

    closed spec fn view(&self) -> ClockView {
        ClockView { basis: self.basis, context: self.context }
    }
}

impl Clock {
    /// The clock holds the precision of a day, worked out when it was made.
    pub closed spec fn holds_day_precision(&self) -> bool {
        &&& self.day_digits == precision_digits(NANOS_PER_DAY as int)
        &&& self.day_sample_duration.nanos == precision_quantum(NANOS_PER_DAY as int)
    }

    /// The clock holds the day's precision, and what it remembers is sound.
    pub open spec fn wf(&self) -> bool {
        &&& self.holds_day_precision()
        &&& self@.wf()
    }

    /// A clock that has no basis and remembers nothing yet.
    ///
    /// The day always has the same length, so its precision is worked out here, once.
    pub fn new() -> (clock: Clock)
        ensures
            clock.wf(),
            clock@.basis is None,
            clock@.context is None,
    {
        let (day_digits, day_sample_duration) = second_ish_precision(day_duration());
        Clock { basis: None, context: None, day_digits, day_sample_duration }
    }

    /// Works out the context at `now`: the bounds of its year and of its day,
    /// the places to show of the year reading, and the delay between samples.
    fn recalculate(&mut self, now: Instant)
        requires
            old(self).wf(),
            now.valid(),
            now.year < MAX_YEAR,
        ensures
            final(self).wf(),
            final(self)@ == old(self)@.recalculated(now),
    {
        let offset_seconds = match self.basis {
            Some(basis) => basis.offset_seconds,
            None => now.offset_seconds,
        };
        let anchor = Instant {
            year: now.year,
            ordinal: now.ordinal,
            hour: now.hour,
            minute: now.minute,
            second: now.second,
            nanosecond: now.nanosecond,
            offset_seconds,
        };
        let (year_start, year_duration) = year_bounds(&anchor);
        let (day_start, _) = day_bounds(&anchor);
        let (year_digits, year_sample_duration) = second_ish_precision(year_duration);
        proof {
            lemma_day_precision();
            lemma_year_precision(year_length_days(now.year as int));
        }
        let faster = if year_sample_duration.nanos <= self.day_sample_duration.nanos {
            year_sample_duration
        } else {
            self.day_sample_duration
        };
        // Sample twice as often as the faster of the two last places changes.
        let sample_delay = Duration { nanos: faster.nanos / 2 };
        self.context = Some(
            Context {
                year: now.year,
                year_start,
                year_duration,
                day: now.ordinal - 1,
                day_start,
                year_digits,
                sample_delay,
            },
        );
    }

    /// The year and the part of it that has passed at `now`, as one exact
    /// number: the year's number, and the time since the start of the year
    /// over the year's length. Once a basis is set, the year reading at the
    /// basis is taken off.
    ///
    /// The context is worked out first if its year is not that of `now`.
    pub fn year_float(&mut self, now: Instant) -> (reading: Fraction)
        requires
            old(self).wf(),
            now.valid(),
            now.year < MAX_YEAR,
        ensures
            final(self).wf(),
            final(self)@ == old(self)@.after_year_reading(now),
            reading.valid(),
            reading.num == final(self)@.year_numerator(now),
            reading.den == final(self)@.year_denominator(now),
            reading.value() == final(self)@.year_value(now),
            old(self)@.basis is None ==> -YEAR_NUMERATOR_BOUND <= reading.num
                <= YEAR_NUMERATOR_BOUND && reading.den <= 366 * NANOS_PER_DAY,
    {
        let stale = match self.context {
            Some(context) => context.year != now.year,
            None => true,
        };
        if stale {
            self.recalculate(now);
        }
        let context = self.context.unwrap();
        proof {
            lemma_into_year(context, now);
        }
        let part = fraction_of(&now, &context.year_start, context.year_duration);
        let length = context.year_duration.nanos;
        proof {
            lemma_product_bound(now.year as int, length as int, 9999, 366 * NANOS_PER_DAY);
            lemma_ratio_whole_part(now.year as int, part.num as int, length as int);
        }
        let absolute = (now.year as i128) * length + part.num;
        match self.basis {
            None => Fraction { num: absolute, den: length },
            Some(basis) => {
                proof {
                    lemma_product_bound(
                        absolute as int,
                        basis.year.den as int,
                        YEAR_NUMERATOR_BOUND as int,
                        366 * NANOS_PER_DAY,
                    );
                    lemma_product_bound(
                        basis.year.num as int,
                        length as int,
                        YEAR_NUMERATOR_BOUND as int,
                        366 * NANOS_PER_DAY,
                    );
                    lemma_product_bound(
                        length as int,
                        basis.year.den as int,
                        366 * NANOS_PER_DAY,
                        366 * NANOS_PER_DAY,
                    );
                    lemma_ratio_difference(
                        absolute as int,
                        length as int,
                        basis.year.num as int,
                        basis.year.den as int,
                    );
                }
                Fraction {
                    num: absolute * basis.year.den - basis.year.num * length,
                    den: length * basis.year.den,
                }
            },
        }
    }

    /// The day of the year, counted from 0, and the part of it that has
    /// passed at `now`, as one exact number of days. Once a basis is set, the
    /// day reading at the basis is taken off, and the days of the year of
    /// `now` are added where that would leave less than nothing.
    ///
    /// The context is worked out first if its day or its year is not that of `now`.
    ///
    /// Adding the days of one year brings the reading back to 0 or above
    /// only where the basis stands no further into its year than the year of
    /// `now` is long. Whether more is wanted of readings that lie years from
    /// the basis is an open question; `law_day_value_wraps_within_year` says
    /// what holds.
    pub fn day_float(&mut self, now: Instant) -> (reading: Fraction)
        requires
            old(self).wf(),
            now.valid(),
            now.year < MAX_YEAR,
        ensures
            final(self).wf(),
            final(self)@ == old(self)@.after_day_reading(now),
            reading.num == final(self)@.day_numerator(now),
            reading.den == NANOS_PER_DAY,
            reading.value() == final(self)@.day_value(now),
            old(self)@.basis is None ==> 0 <= reading.num <= DAY_NUMERATOR_BOUND,
    {
        let stale = match self.context {
            Some(context) => context.day != now.ordinal - 1 || context.year != now.year,
            None => true,
        };
        if stale {
            self.recalculate(now);
        }
        let context = self.context.unwrap();
        proof {
            lemma_into_day(context, now);
        }
        let part = fraction_of(&now, &context.day_start, day_duration());
        let position = ((now.ordinal - 1) as i128) * NANOS_PER_DAY + part.num;
        let basis_position = match self.basis {
            Some(basis) => basis.day.num,
            None => 0,
        };
        proof {
            let day = NANOS_PER_DAY as int;
            let behind = position - basis_position;
            lemma_ratio_whole_part(now.ordinal - 1, part.num as int, day);
            lemma_ratio_in_unit_interval(0, day);
            lemma_ratio_sum(behind, basis_position as int, day);
            assert(ratio(behind, day) == self@.day_position(now) - self@.basis_day_value());
            lemma_ratio_order(0, behind, day);
            lemma_ratio_sum(behind, context.year_duration.nanos as int, day);
        }
        if position >= basis_position {
            Fraction { num: position - basis_position, den: NANOS_PER_DAY }
        } else {
            Fraction {
                num: position - basis_position + context.year_duration.nanos,
                den: NANOS_PER_DAY,
            }
        }
    }

    /// How long to wait before the next sample: half the time in which the
    /// faster of the two last places shown changes once, for the year that
    /// the clock remembers. A clock that remembers no year yet asks for no delay.
    pub fn sample_delay(&self) -> (delay: Duration)
        requires
            self.wf(),
        ensures
            delay.nanos == (match self@.context {
                Some(context) => sample_delay_nanos(year_length_nanos(context.year as int)),
                None => 0,
            }),
            self@.context matches Some(context) ==> delay == context.sample_delay,
            0 <= delay.nanos < NANOS_PER_SECOND,
    {
        match self.context {
            Some(context) => {
                proof {
                    lemma_day_precision();
                    lemma_year_precision(year_length_days(context.year as int));
                }
                context.sample_delay
            },
            None => Duration { nanos: 0 },
        }
    }

    /// Makes `time` the basis: the year reading and the day reading at
    /// `time`, taken while there is no basis yet, are from now on taken off
    /// every reading, and every context is read at the offset of `time`.
    ///
    /// A clock takes a basis once.
    pub fn set_basis(&mut self, time: Instant)
        requires
            old(self).wf(),
            old(self)@.basis is None,
            time.valid(),
            time.year < MAX_YEAR,
        ensures
            final(self).wf(),
            final(self)@ == old(self)@.after_set_basis(time),
            final(self)@.basis matches Some(basis) && {
                &&& basis.year.num == old(self)@.after_year_reading(time).year_numerator(time)
                &&& basis.year.den == old(self)@.after_year_reading(time).year_denominator(time)
                &&& basis.day.num == old(self)@.after_day_reading(time).day_numerator(time)
                &&& basis.day.den == NANOS_PER_DAY
                &&& basis.offset_seconds == time.offset_seconds
            },
    {
        let year = self.year_float(time);
        let day = self.day_float(time);
        self.basis = Some(Basis { year, day, offset_seconds: time.offset_seconds });
    }

    /// The two readings at `now` in decimal notation, the year reading first
    /// and the day reading after one space, each rounded to the number of
    /// decimal places worth showing of it.
    ///
    /// The readings are taken as `year_float` and `day_float` take them, in
    /// that order, so the places are those of the year and the day of `now`.
    pub fn format(&mut self, now: Instant) -> (text: String)
        requires
            old(self).wf(),
            now.valid(),
            now.year < MAX_YEAR,
        ensures
            final(self).wf(),
            final(self)@ == old(self)@.after_year_reading(now).after_day_reading(now),
            text@ == old(self)@.after_year_reading(now).year_text(now) + seq![' ']
                + final(self)@.day_text(now),
    {
        let year = self.year_float(now);
        let day = self.day_float(now);
        let context = self.context.unwrap();
        proof {
            lemma_year_precision(year_length_days(now.year as int));
            lemma_day_precision();
            reveal_strlit(" ");
        }
        let mut text = year.to_decimal(context.year_digits);
        text.append(" ");
        let day_text = day.to_decimal(self.day_digits);
        text.append(day_text.as_str());
        assert(text@ =~= old(self)@.after_year_reading(now).year_text(now) + seq![' ']
            + self@.day_text(now));
        text
    }
}

} // verus!
