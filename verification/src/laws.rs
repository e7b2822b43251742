//! What holds of the clock's readings over all instants.
//!
//! Every law speaks of instants read at one offset from UTC, by a clock that
//! reads its contexts at that offset too.

use vstd::prelude::*;
use crate::calendar::days_before_year;
use crate::calendar::leap_year;
use crate::calendar::year_length_days;
use crate::calendar::year_length_nanos;
use crate::calendar::Instant;
use crate::calendar::MAX_YEAR;
use crate::calendar::MIN_YEAR;
use crate::clock::lemma_into_day;
use crate::clock::lemma_into_year;
use crate::clock::sample_delay_nanos;
use crate::clock::ClockView;
use crate::clock::Context;
use crate::duration::NANOS_PER_DAY;
use crate::fraction::lemma_ratio_in_unit_interval;
use crate::fraction::lemma_ratio_order;
use crate::fraction::lemma_ratio_whole_part;
use crate::fraction::ratio;
use crate::precision::lemma_day_precision;
use crate::precision::lemma_year_precision;

verus! {

/// Later years begin on later days.
pub proof fn lemma_years_follow_each_other(earlier: int, later: int)
    requires
        MIN_YEAR <= earlier <= later,
    ensures
        days_before_year(earlier) <= days_before_year(later),
        earlier < later ==> days_before_year(earlier) + year_length_days(earlier)
            <= days_before_year(later),
    decreases later - earlier,
{
    if earlier < later {
        lemma_years_follow_each_other(earlier, later - 1);
    }
}

/// Of two instants read at one offset, the one that comes first on the time
/// line lies in the same year as the other, or in an earlier one.
pub proof fn lemma_time_orders_years(a: Instant, b: Instant)
    requires
        a.valid(),
        b.valid(),
        a.offset_seconds == b.offset_seconds,
        a.timeline_nanos() <= b.timeline_nanos(),
    ensures
        a.year <= b.year,
{
    if a.year > b.year {
        lemma_years_follow_each_other(b.year as int, a.year as int);
        assert(b.day_number() < a.day_number());
        assert(b.day_number() * NANOS_PER_DAY + NANOS_PER_DAY <= a.day_number() * NANOS_PER_DAY);
    }
}

/// A clock that reads at the offset of `now` still does so after a reading at `now`.
pub proof fn lemma_reading_keeps_offset(clock: ClockView, now: Instant)
    requires
        clock.wf(),
        clock.reads_at(now.offset_seconds),
        now.valid(),
        now.year < MAX_YEAR,
    ensures
        clock.after_year_reading(now).wf(),
        clock.after_year_reading(now).reads_at(now.offset_seconds),
        clock.after_year_reading(now).year_is_current(now),
        clock.after_day_reading(now).wf(),
        clock.after_day_reading(now).reads_at(now.offset_seconds),
        clock.after_day_reading(now).day_is_current(now),
{
    lemma_year_precision(year_length_days(now.year as int));
    lemma_day_precision();
}

/// Within a year the year reading runs from the year's number up to, but
/// not including, the next: at midnight on the year's first day it is the
/// year's number exactly, and at every later instant of the year, the last
/// second of its last day among them, it lies above that and below the
/// number of the next year. A basis shifts all of this by its year reading.
pub proof fn law_year_value_within_year(clock: ClockView, now: Instant)
    requires
        clock.wf(),
        clock.reads_at(now.offset_seconds),
        now.valid(),
        now.year < MAX_YEAR,
    ensures
        ({
            let reading = clock.after_year_reading(now).year_value(now) + clock.basis_year_value();
            let start = Instant::start_of_year(now.year, now.offset_seconds);
            &&& now.year as real <= reading < (now.year + 1) as real
            &&& reading == now.year as real <==> now == start
        }),
{
    let after = clock.after_year_reading(now);
    lemma_reading_keeps_offset(clock, now);
    let context = after.context.unwrap();
    lemma_into_year(context, now);
    lemma_ratio_in_unit_interval(context.into_year(now), context.year_duration.nanos as int);
}

/// The year reading never falls as time goes on: of two readings that a
/// clock takes one after the other, the second is at least the first if its
/// instant is not the earlier one.
pub proof fn law_year_value_is_monotonic(clock: ClockView, first: Instant, second: Instant)
    requires
        clock.wf(),
        clock.reads_at(first.offset_seconds),
        first.valid(),
        second.valid(),
        first.offset_seconds == second.offset_seconds,
        first.timeline_nanos() <= second.timeline_nanos(),
        second.year < MAX_YEAR,
    ensures
        ({
            let between = clock.after_year_reading(first);
            let after = between.after_year_reading(second);
            between.year_value(first) <= after.year_value(second)
        }),
{
    lemma_time_orders_years(first, second);
    let between = clock.after_year_reading(first);
    let after = between.after_year_reading(second);
    lemma_reading_keeps_offset(clock, first);
    lemma_reading_keeps_offset(between, second);
    law_year_value_within_year(clock, first);
    law_year_value_within_year(between, second);
    if first.year == second.year {
        let context = between.context.unwrap();
        assert(after == between);
        lemma_ratio_order(
            context.into_year(first),
            context.into_year(second),
            context.year_duration.nanos as int,
        );
    } else {
        assert((first.year + 1) as real <= second.year as real);
    }
}

/// From midnight on the first day of one year to midnight on the first day
/// of the next, the year reading grows by exactly 1.
pub proof fn law_year_value_grows_by_one_a_year(clock: ClockView, year: i32, offset_seconds: i32)
    requires
        clock.wf(),
        clock.reads_at(offset_seconds),
        Instant::start_of_year(year, offset_seconds).valid(),
        year + 1 < MAX_YEAR,
    ensures
        ({
            let this_year = Instant::start_of_year(year, offset_seconds);
            let next_year = Instant::start_of_year((year + 1) as i32, offset_seconds);
            let between = clock.after_year_reading(this_year);
            let after = between.after_year_reading(next_year);
            after.year_value(next_year) == between.year_value(this_year) + 1 as real
        }),
{
    let this_year = Instant::start_of_year(year, offset_seconds);
    let next_year = Instant::start_of_year((year + 1) as i32, offset_seconds);
    let between = clock.after_year_reading(this_year);
    lemma_reading_keeps_offset(clock, this_year);
    law_year_value_within_year(clock, this_year);
    law_year_value_within_year(between, next_year);
}

/// At the turn of a year, without a basis: in the last second of the year
/// the year reading is still below the number of the next year, and at
/// midnight on the first day of the next year it is that number exactly.
pub proof fn law_year_value_at_the_turn_of_the_year(
    clock: ClockView,
    last_second: Instant,
    midnight: Instant,
)
    requires
        clock.wf(),
        clock.basis is None,
        clock.reads_at(last_second.offset_seconds),
        last_second.valid(),
        last_second.year + 1 < MAX_YEAR,
        last_second.ordinal == year_length_days(last_second.year as int),
        last_second.hour == 23 && last_second.minute == 59 && last_second.second == 59,
        midnight == Instant::start_of_year(
            (last_second.year + 1) as i32,
            last_second.offset_seconds,
        ),
    ensures
        ({
            let between = clock.after_year_reading(last_second);
            let after = between.after_year_reading(midnight);
            &&& between.year_value(last_second) < (last_second.year + 1) as real
            &&& after.year_value(midnight) == (last_second.year + 1) as real
        }),
{
    let between = clock.after_year_reading(last_second);
    lemma_reading_keeps_offset(clock, last_second);
    law_year_value_within_year(clock, last_second);
    law_year_value_within_year(between, midnight);
}

/// Without a basis the day reading is the day's number, counted from 0, and
/// the part of the day that has passed.
pub proof fn lemma_day_value_without_basis(clock: ClockView, now: Instant)
    requires
        clock.wf(),
        clock.basis is None,
        clock.reads_at(now.offset_seconds),
        now.valid(),
        now.year < MAX_YEAR,
    ensures
        ({
            let part = ratio(now.nanos_of_day(), NANOS_PER_DAY as int);
            &&& clock.after_day_reading(now).day_value(now) == (now.ordinal - 1) as real + part
            &&& 0 as real <= part < 1 as real
        }),
{
    let after = clock.after_day_reading(now);
    lemma_reading_keeps_offset(clock, now);
    let context = after.context.unwrap();
    lemma_into_day(context, now);
    lemma_ratio_in_unit_interval(now.nanos_of_day(), NANOS_PER_DAY as int);
}

/// Without a basis the day reading at midnight is the day's number, counted
/// from 0, with nothing after the point: the part within the day starts
/// from 0 again at each local midnight, and the whole reading does so at
/// midnight on the first day of a year.
pub proof fn law_day_value_at_midnight(clock: ClockView, now: Instant)
    requires
        clock.wf(),
        clock.basis is None,
        clock.reads_at(now.offset_seconds),
        now.valid(),
        now.year < MAX_YEAR,
        now == Instant::start_of_day(now.year, now.ordinal, now.offset_seconds),
    ensures
        clock.after_day_reading(now).day_value(now) == (now.ordinal - 1) as real,
        now.ordinal == 1 ==> clock.after_day_reading(now).day_value(now) == 0 as real,
{
    lemma_day_value_without_basis(clock, now);
    lemma_ratio_in_unit_interval(0, NANOS_PER_DAY as int);
}

/// Without a basis the day reading grows by exactly 1 in 24 hours: of two
/// readings that a clock takes one after the other in one year, the second
/// 24 hours after the first, the second is the first and 1.
pub proof fn law_day_value_grows_by_one_a_day(clock: ClockView, first: Instant, second: Instant)
    requires
        clock.wf(),
        clock.basis is None,
        clock.reads_at(first.offset_seconds),
        first.valid(),
        second.valid(),
        first.offset_seconds == second.offset_seconds,
        first.year == second.year,
        second.year < MAX_YEAR,
        second.timeline_nanos() == first.timeline_nanos() + NANOS_PER_DAY,
    ensures
        ({
            let between = clock.after_day_reading(first);
            let after = between.after_day_reading(second);
            after.day_value(second) == between.day_value(first) + 1 as real
        }),
{
    let between = clock.after_day_reading(first);
    lemma_reading_keeps_offset(clock, first);
    lemma_day_value_without_basis(clock, first);
    lemma_day_value_without_basis(between, second);
    assert(second.ordinal == first.ordinal + 1 && second.nanos_of_day() == first.nanos_of_day())
        by {
        let gap = (second.ordinal - first.ordinal) * NANOS_PER_DAY;
        assert(second.nanos_of_day() - first.nanos_of_day() == NANOS_PER_DAY - gap);
        if second.ordinal <= first.ordinal {
            assert(gap <= 0) by (nonlinear_arith)
                requires
                    gap == (second.ordinal - first.ordinal) * NANOS_PER_DAY,
                    second.ordinal <= first.ordinal,
            ;
        } else if second.ordinal >= first.ordinal + 2 {
            assert(gap >= 2 * NANOS_PER_DAY) by (nonlinear_arith)
                requires
                    gap == (second.ordinal - first.ordinal) * NANOS_PER_DAY,
                    second.ordinal >= first.ordinal + 2,
            ;
        }
    }
}

/// The day reading counted from a basis stays below the days of the year of
/// `now`. It is 0 or more as long as the day reading at the basis is no more
/// than the days of that year.
///
/// It is not always so: a basis late on the last day of a leap year stands at
/// more than 365 days, and early in a common year the days added are 365, so
/// the reading is negative there.
pub proof fn law_day_value_wraps_within_year(clock: ClockView, now: Instant)
    requires
        clock.wf(),
        clock.reads_at(now.offset_seconds),
        now.valid(),
        now.year < MAX_YEAR,
    ensures
        clock.after_day_reading(now).day_value(now) < year_length_days(now.year as int) as real,
        clock.basis_day_value() <= year_length_days(now.year as int) as real
            ==> clock.after_day_reading(now).day_value(now) >= 0 as real,
{
    let after = clock.after_day_reading(now);
    lemma_reading_keeps_offset(clock, now);
    let context = after.context.unwrap();
    lemma_into_day(context, now);
    let day = NANOS_PER_DAY as int;
    let days = year_length_days(now.year as int);
    lemma_ratio_in_unit_interval(context.into_day(now), day);
    lemma_ratio_whole_part(days, 0, day);
    lemma_ratio_in_unit_interval(0, day);
    assert(ratio(context.year_duration.nanos as int, day) == days as real);
    match clock.basis {
        Some(basis) => {
            lemma_ratio_in_unit_interval(basis.day.num as int, day);
            lemma_ratio_order(0, basis.day.num as int, day);
        },
        None => {},
    }
}

/// Read at the very instant of its basis, a clock shows nothing: the year
/// reading and the day reading are both exactly 0.
pub proof fn law_reading_at_the_basis_is_zero(clock: ClockView, time: Instant)
    requires
        clock.wf(),
        clock.basis is None,
        clock.reads_at(time.offset_seconds),
        time.valid(),
        time.year < MAX_YEAR,
    ensures
        ({
            let based = clock.after_set_basis(time);
            let year_read = based.after_year_reading(time);
            let day_read = year_read.after_day_reading(time);
            &&& year_read.year_numerator(time) == 0
            &&& year_read.year_value(time) == 0 as real
            &&& day_read.day_numerator(time) == 0
            &&& day_read.day_value(time) == 0 as real
        }),
{
    let before_year = clock.after_year_reading(time);
    let before_day = before_year.after_day_reading(time);
    lemma_reading_keeps_offset(clock, time);
    lemma_reading_keeps_offset(before_year, time);
    let year_context = before_year.context.unwrap();
    let context = before_day.context.unwrap();
    lemma_into_year(year_context, time);
    lemma_into_year(context, time);
    lemma_into_day(context, time);
    assert(year_context.year_start == context.year_start);
    assert(year_context.year_duration == context.year_duration);
    let based = clock.after_set_basis(time);
    assert(based.after_year_reading(time) == based);
    assert(based.after_day_reading(time) == based);
    let length = context.year_duration.nanos as int;
    lemma_ratio_whole_part(time.year as int, context.into_year(time), length);
    lemma_ratio_whole_part(time.ordinal - 1, context.into_day(time), NANOS_PER_DAY as int);
    let basis = based.basis.unwrap();
    let absolute = time.year * length + context.into_year(time);
    let position = (time.ordinal - 1) * NANOS_PER_DAY + context.into_day(time);
    assert(-9999 * (366 * NANOS_PER_DAY) <= time.year * length <= 9999 * (366 * NANOS_PER_DAY))
        by (nonlinear_arith)
        requires
            -9999 <= time.year <= 9999,
            0 < length <= 366 * NANOS_PER_DAY,
    ;
    assert(basis.year.num == absolute);
    assert(basis.day.num == position);
}

/// A leap year is a day longer than a common year, and so asks for a longer
/// delay between samples.
pub proof fn law_leap_year_delays_longer(leap: int, common: int)
    requires
        leap_year(leap),
        !leap_year(common),
    ensures
        year_length_nanos(leap) == year_length_nanos(common) + NANOS_PER_DAY,
        sample_delay_nanos(year_length_nanos(leap)) == 158_112_000,
        sample_delay_nanos(year_length_nanos(common)) == 157_680_000,
        sample_delay_nanos(year_length_nanos(leap)) > sample_delay_nanos(year_length_nanos(common)),
{
    lemma_year_precision(366);
    lemma_year_precision(365);
    lemma_day_precision();
}

/// The delay that a clock asks for after a reading in a leap year is longer
/// than after a reading in a common year.
pub proof fn law_leap_year_context_delays_longer(
    in_leap_year: Instant,
    in_common_year: Instant,
    offset_seconds: i32,
)
    requires
        leap_year(in_leap_year.year as int),
        !leap_year(in_common_year.year as int),
    ensures
        ({
            let leap = Context::at(in_leap_year, offset_seconds);
            let common = Context::at(in_common_year, offset_seconds);
            &&& leap.year_duration.nanos > common.year_duration.nanos
            &&& leap.sample_delay.nanos > common.sample_delay.nanos
        }),
{
    law_leap_year_delays_longer(in_leap_year.year as int, in_common_year.year as int);
}

} // verus!
