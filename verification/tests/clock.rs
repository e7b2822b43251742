use fraction_clock::clock::Clock;
use fraction_clock::{Fraction, Instant};
use time::{Date, Month, OffsetDateTime, UtcOffset};

fn instant(at: OffsetDateTime) -> Instant {
    let (hour, minute, second, nanosecond) = at.to_hms_nano();
    Instant::new(
        at.year(),
        at.ordinal(),
        hour,
        minute,
        second,
        nanosecond,
        at.offset().whole_seconds(),
    )
    .unwrap()
}

fn float(reading: Fraction) -> f64 {
    reading.num as f64 / reading.den as f64
}

fn utc(year: i32, month: Month, day: u8, hour: u8, minute: u8, second: u8) -> OffsetDateTime {
    Date::from_calendar_date(year, month, day)
        .unwrap()
        .with_hms(hour, minute, second)
        .unwrap()
        .assume_utc()
}

fn at_offset(
    year: i32,
    month: Month,
    day: u8,
    hour: u8,
    minute: u8,
    second: u8,
    offset_hours: i8,
) -> OffsetDateTime {
    Date::from_calendar_date(year, month, day)
        .unwrap()
        .with_hms(hour, minute, second)
        .unwrap()
        .assume_offset(UtcOffset::from_hms(offset_hours, 0, 0).unwrap())
}

#[test]
fn year_ends() {
    let mut clock = Clock::new();

    let one_sec = time::Duration::seconds(1);

    let mut time = Date::from_calendar_date(2020, Month::December, 31)
        .unwrap()
        .with_hms(23, 59, 59)
        .unwrap()
        .assume_utc();
    assert!(2020.9999 < float(clock.year_float(instant(time))));
    assert!(2021.0000 > float(clock.year_float(instant(time))));

    time += one_sec;
    assert_eq!(2021., float(clock.year_float(instant(time))));

    time += one_sec;
    assert!(2021. < float(clock.year_float(instant(time))));
    assert!(2021.0001 > float(clock.year_float(instant(time))));
}

#[test]
fn day_frac() {
    let mut clock = Clock::new();
    let mut time = Date::from_calendar_date(2021, Month::January, 1)
        .unwrap()
        .with_hms(0, 0, 0)
        .unwrap()
        .assume_utc();
    assert!(0.0001 > float(clock.day_float(instant(time))));
    assert!(-0.0001 < float(clock.day_float(instant(time))));

    time += time::Duration::hours(24);
    assert!(0.9999 < float(clock.day_float(instant(time))));
    assert!(1.0001 > float(clock.day_float(instant(time))));
}

#[test]
fn leap_year() {
    let mut clock = Clock::new();

    // 2000 was a leap year
    let mut time = Date::from_calendar_date(2000, Month::December, 31)
        .unwrap()
        .with_hms(23, 59, 59)
        .unwrap()
        .assume_utc();
    assert!(2001. > float(clock.year_float(instant(time))));
    let leap_delay = std::time::Duration::new(0, clock.sample_delay().nanos as u32);

    // happy new year
    time += time::Duration::seconds(1);
    assert_eq!(2001., float(clock.year_float(instant(time))));
    let non_leap_delay = std::time::Duration::new(0, clock.sample_delay().nanos as u32);

    // leap year is slightly longer, and should have a longer delay
    assert!(leap_delay > non_leap_delay);
}

#[test]
fn year_reading_is_exact() {
    let mut clock = Clock::new();
    // noon on the first day of a leap year: half a day of 366
    let reading = clock.year_float(instant(utc(2020, Month::January, 1, 12, 0, 0)));
    assert_eq!(reading.den, 366 * 86_400_000_000_000);
    assert_eq!(reading.num, 2020 * 366 * 86_400_000_000_000 + 43_200_000_000_000);
    // the last second of a common year
    let reading = clock.year_float(instant(utc(2021, Month::December, 31, 23, 59, 59)));
    assert_eq!(reading.den, 365 * 86_400_000_000_000);
    assert_eq!(reading.num, 2022 * 365 * 86_400_000_000_000 - 1_000_000_000);
}

#[test]
fn year_reading_never_falls_and_gains_one_a_year() {
    let mut clock = Clock::new();
    let moments = [
        utc(2019, Month::December, 31, 23, 59, 59),
        utc(2020, Month::January, 1, 0, 0, 0),
        utc(2020, Month::February, 29, 12, 0, 0),
        utc(2020, Month::December, 31, 23, 59, 59),
        utc(2021, Month::January, 1, 0, 0, 0),
        utc(2021, Month::January, 1, 0, 0, 1),
    ];
    let mut last = clock.year_float(instant(moments[0]));
    for moment in &moments[1..] {
        let next = clock.year_float(instant(*moment));
        // compare the two exact readings by cross multiplication
        assert!(last.num * next.den <= next.num * last.den);
        last = next;
    }
    let start_2020 = clock.year_float(instant(utc(2020, Month::January, 1, 0, 0, 0)));
    let start_2021 = clock.year_float(instant(utc(2021, Month::January, 1, 0, 0, 0)));
    assert_eq!(start_2020.num, 2020 * start_2020.den);
    assert_eq!(start_2021.num, 2021 * start_2021.den);
}

#[test]
fn year_value_across_the_turn_of_the_year() {
    let mut clock = Clock::new();
    let before = float(clock.year_float(instant(utc(2020, Month::December, 31, 23, 59, 59))));
    assert!(before > 2020.9999 && before < 2021.0);
    let at = float(clock.year_float(instant(utc(2021, Month::January, 1, 0, 0, 0))));
    assert_eq!(at, 2021.0);
    let after = float(clock.year_float(instant(utc(2021, Month::January, 1, 0, 0, 1))));
    assert!(after > 2021.0 && after < 2021.0001);
}

#[test]
fn day_value_through_the_first_days_of_2020() {
    let mut clock = Clock::new();
    let midnight = float(clock.day_float(instant(utc(2020, Month::January, 1, 0, 0, 0))));
    assert!(midnight.abs() < 0.0001);
    let next_midnight = float(clock.day_float(instant(utc(2020, Month::January, 2, 0, 0, 0))));
    assert!((next_midnight - 1.0).abs() < 0.0001);
    let noon = float(clock.day_float(instant(utc(2020, Month::January, 1, 12, 0, 0))));
    assert!((noon - 0.5).abs() < 0.0001);
}

#[test]
fn day_reading_is_whole_at_midnight_and_gains_one_a_day() {
    let mut clock = Clock::new();
    let day = 86_400_000_000_000_i128;
    let midnight = clock.day_float(instant(utc(2021, Month::March, 1, 0, 0, 0)));
    assert_eq!(midnight, Fraction { num: 59 * day, den: day });
    let first = clock.day_float(instant(utc(2021, Month::March, 1, 17, 30, 15)));
    let second = clock.day_float(instant(utc(2021, Month::March, 2, 17, 30, 15)));
    assert_eq!(second.den, first.den);
    assert_eq!(second.num, first.num + day);
    // the last day of a leap year has the number 365
    let last = clock.day_float(instant(utc(2020, Month::December, 31, 0, 0, 0)));
    assert_eq!(last.num, 365 * day);
    // and the count starts again with the year
    let new_year = clock.day_float(instant(utc(2021, Month::January, 1, 0, 0, 0)));
    assert_eq!(new_year.num, 0);
}

#[test]
fn fresh_clock_asks_for_no_delay() {
    let clock = Clock::new();
    assert_eq!(clock.sample_delay().nanos, 0);
}

#[test]
fn sample_delay_is_half_the_year_quantum() {
    let mut clock = Clock::new();
    clock.year_float(instant(utc(2000, Month::June, 1, 0, 0, 0)));
    assert_eq!(clock.sample_delay().nanos, 158_112_000);
    clock.year_float(instant(utc(1900, Month::June, 1, 0, 0, 0)));
    assert_eq!(clock.sample_delay().nanos, 157_680_000);
    clock.day_float(instant(utc(2004, Month::June, 1, 0, 0, 0)));
    assert_eq!(clock.sample_delay().nanos, 158_112_000);
    clock.day_float(instant(utc(2100, Month::June, 1, 0, 0, 0)));
    assert_eq!(clock.sample_delay().nanos, 157_680_000);
}

#[test]
fn reading_at_the_basis_is_zero() {
    let mut clock = Clock::new();
    let basis = instant(at_offset(2021, Month::July, 4, 9, 26, 53, 2));
    clock.set_basis(basis);
    let year = clock.year_float(basis);
    let day = clock.day_float(basis);
    assert_eq!(year.num, 0);
    assert_eq!(day.num, 0);
    assert_eq!(float(year), 0.0);
    assert_eq!(float(day), 0.0);
    assert_eq!(clock.format(basis), "0.00000000 0.00000");
}

#[test]
fn readings_count_from_the_basis() {
    let mut clock = Clock::new();
    clock.set_basis(instant(utc(2021, Month::January, 1, 0, 0, 0)));
    // half a common year later
    let later = instant(utc(2021, Month::July, 2, 12, 0, 0));
    let year = clock.year_float(later);
    assert_eq!(float(year), 0.5);
    let day = clock.day_float(later);
    assert_eq!(float(day), 182.5);
    // a whole year later, in a year of the same length
    let much_later = instant(utc(2022, Month::January, 1, 0, 0, 0));
    assert_eq!(float(clock.year_float(much_later)), 1.0);
    assert_eq!(float(clock.day_float(much_later)), 0.0);
    // before the basis the year reading is negative
    let earlier = instant(utc(2020, Month::January, 1, 0, 0, 0));
    assert_eq!(float(clock.year_float(earlier)), -1.0);
}

#[test]
fn day_reading_before_the_basis_day_wraps_by_the_year() {
    let mut clock = Clock::new();
    // the basis lies on day 100 (counted from 0) of 2021, at noon
    clock.set_basis(instant(utc(2021, Month::April, 11, 12, 0, 0)));
    // day 50 of the leap year 2024, at noon: 50.5 - 100.5 + 366
    let day = clock.day_float(instant(utc(2024, Month::February, 20, 12, 0, 0)));
    assert_eq!(float(day), 316.0);
    // day 50 of the common year 2022: 50.5 - 100.5 + 365
    let day = clock.day_float(instant(utc(2022, Month::February, 20, 12, 0, 0)));
    assert_eq!(float(day), 315.0);
    // on the basis day itself, later in the day, nothing wraps
    let day = clock.day_float(instant(utc(2022, Month::April, 11, 18, 0, 0)));
    assert_eq!(float(day), 0.25);
}

#[test]
fn contexts_are_read_at_the_offset_of_the_basis() {
    let mut clock = Clock::new();
    clock.set_basis(instant(at_offset(2021, Month::June, 1, 0, 0, 0, 2)));
    // the same moment, read two hours further west: the day's number and the
    // time of day are those of the reading, the day's start lies at the
    // offset of the basis
    let reading = instant(at_offset(2021, Month::May, 31, 22, 0, 0, 0));
    let day = clock.day_float(reading);
    // 150 days, and 22 h + 2 h into the day: the 151 days of the basis
    assert_eq!(day.den, 86_400_000_000_000);
    assert_eq!(day.num, 0);
    let year = clock.year_float(reading);
    assert_eq!(year.num, 0);
    // a second earlier the day reading falls below the basis and wraps
    let reading = instant(at_offset(2021, Month::May, 31, 21, 59, 59, 0));
    let day = clock.day_float(reading);
    assert_eq!(day.num, 365 * 86_400_000_000_000 - 1_000_000_000);
}

#[test]
fn context_is_kept_while_the_labels_match() {
    let mut clock = Clock::new();
    // the context is worked out at UTC
    let first = clock.day_float(instant(at_offset(2021, Month::June, 1, 12, 0, 0, 0)));
    assert_eq!(float(first), 151.5);
    // the same day's number, read an hour east of UTC: the day's start stays
    // where it was, so the reading lies an hour earlier than its time of day
    let second = clock.day_float(instant(at_offset(2021, Month::June, 1, 12, 0, 0, 1)));
    assert_eq!(second.num, 151 * 86_400_000_000_000 + 11 * 3_600_000_000_000);
    // a new day's number works the context out again, at the new offset
    let third = clock.day_float(instant(at_offset(2021, Month::June, 2, 12, 0, 0, 1)));
    assert_eq!(float(third), 152.5);
}

#[test]
fn format_shows_eight_and_five_places() {
    let mut clock = Clock::new();
    let text = clock.format(instant(utc(2020, Month::January, 1, 12, 0, 0)));
    // 0.5 / 366 = 0.001366120218...
    assert_eq!(text, "2020.00136612 0.50000");
    let text = clock.format(instant(utc(2020, Month::December, 31, 23, 59, 59)));
    // 1 - 1 / 31622400 = 0.99999996837..., 1 - 1 / 86400 = 0.9999884...
    assert_eq!(text, "2020.99999997 365.99999");
    let text = clock.format(instant(utc(2021, Month::January, 1, 0, 0, 0)));
    assert_eq!(text, "2021.00000000 0.00000");
}

#[test]
fn format_agrees_with_floating_point_formatting() {
    let mut clock = Clock::new();
    let moments = [
        utc(1999, Month::December, 31, 23, 59, 59),
        utc(2000, Month::February, 29, 6, 7, 8),
        utc(2021, Month::July, 4, 9, 26, 53),
        utc(2021, Month::October, 28, 20, 56, 1),
        utc(2024, Month::March, 10, 2, 30, 0),
    ];
    for moment in moments {
        let now = instant(moment);
        let year = float(clock.year_float(now));
        let day = float(clock.day_float(now));
        assert_eq!(clock.format(now), format!("{year:.8} {day:.5}"));
    }
}

#[test]
fn format_counts_from_the_basis() {
    let mut clock = Clock::new();
    clock.set_basis(instant(utc(2021, Month::January, 1, 0, 0, 0)));
    let text = clock.format(instant(utc(2021, Month::January, 1, 0, 0, 1)));
    // a second is 1 / 31536000 of the year and 1 / 86400 of the day
    assert_eq!(text, "0.00000003 0.00001");
    let text = clock.format(instant(utc(2020, Month::December, 31, 12, 0, 0)));
    // half a day before the basis: -0.5 / 366 of a year; the day reading wraps
    assert_eq!(text, "-0.00136612 365.50000");
}

#[test]
fn years_below_zero_read_like_any_other() {
    let mut clock = Clock::new();
    // the very first reading of a clock may lie in the year -1
    let reading = clock.year_float(instant(utc(-1, Month::January, 1, 0, 0, 0)));
    assert_eq!(reading.den, 365 * 86_400_000_000_000);
    assert_eq!(reading.num, -365 * 86_400_000_000_000);
    assert_eq!(clock.sample_delay().nanos, 157_680_000);
    // the year 0 is a leap year; half of it has passed at the start of July 2
    let reading = clock.year_float(instant(utc(0, Month::July, 2, 0, 0, 0)));
    assert_eq!(float(reading), 0.5);
    assert_eq!(clock.format(instant(utc(0, Month::July, 2, 0, 0, 0))), "0.50000000 183.00000");
    // three quarters of the common year -1 are left at the start of April 2, 6 o'clock
    let text = clock.format(instant(utc(-1, Month::April, 2, 6, 0, 0)));
    assert_eq!(text, "-0.75000000 91.25000");
    // the first and the last year that the clock reads
    let first = clock.year_float(instant(utc(-9999, Month::January, 1, 0, 0, 0)));
    assert_eq!(float(first), -9999.0);
    let last = clock.format(instant(utc(9998, Month::December, 31, 23, 59, 59)));
    assert_eq!(last, "9998.99999997 364.99999");
}

#[test]
fn offsets_shift_the_reading_only_through_the_calendar() {
    let mut east = Clock::new();
    let mut west = Clock::new();
    // the same local reading at two offsets gives the same readings
    let here = instant(at_offset(2021, Month::August, 15, 8, 0, 0, 9));
    let there = instant(at_offset(2021, Month::August, 15, 8, 0, 0, -9));
    assert_eq!(east.year_float(here), west.year_float(there));
    assert_eq!(east.day_float(here), west.day_float(there));
    assert_eq!(east.format(here), west.format(there));
}
