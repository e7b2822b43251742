//! How many decimal places of a fraction are worth showing.
//!
//! A fraction of a span, shown to `n` decimal places, moves by one unit in
//! the last place each time the span's `10^n`-th part has passed. The places
//! worth showing are the fewest for which that part is a second or less.

use vstd::prelude::*;
use vstd::arithmetic::div_mod::lemma_div_denominator;
use vstd::arithmetic::div_mod::lemma_fundamental_div_mod;
use vstd::arithmetic::power::lemma_pow0;
use vstd::arithmetic::power::lemma_pow1;
use vstd::arithmetic::power::lemma_pow_adds;
use vstd::arithmetic::power::lemma_pow_positive;
use vstd::arithmetic::power::lemma_pow_strictly_increases_converse;
use vstd::arithmetic::power::pow;
use crate::duration::Duration;
use crate::duration::NANOS_PER_DAY;
use crate::duration::NANOS_PER_SECOND;

verus! {

/// The time, in nanoseconds, that one unit in the last of `digits` decimal
/// places stands for, when the whole is `nanos` long.
pub open spec fn one_unit(nanos: int, digits: nat) -> int {
    nanos / pow(10, digits)
}

/// `digits` is the least number of decimal places at which one unit in the
/// last place stands for a second or less.
pub open spec fn is_precision(nanos: int, digits: nat) -> bool {
    &&& one_unit(nanos, digits) <= NANOS_PER_SECOND
    &&& forall|fewer: nat| fewer < digits ==> #[trigger] one_unit(nanos, fewer) > NANOS_PER_SECOND
}

/// The number of decimal places worth showing of a fraction of a span that is
/// `nanos` long.
pub open spec fn precision_digits(nanos: int) -> nat {
    choose|digits: nat| is_precision(nanos, digits)
}

/// The time between two changes of the last place shown.
pub open spec fn precision_quantum(nanos: int) -> int {
    one_unit(nanos, precision_digits(nanos))
}

/// At most one number of places is the precision of a span.
pub proof fn lemma_precision_is_unique(nanos: int, a: nat, b: nat)
    requires
        is_precision(nanos, a),
        is_precision(nanos, b),
    ensures
        a == b,
{
    if a < b {
        assert(one_unit(nanos, a) > NANOS_PER_SECOND);
    }
    if b < a {
        assert(one_unit(nanos, b) > NANOS_PER_SECOND);
    }
}

/// The precision of a span is the one number of places that meets its definition.
pub proof fn lemma_precision_found(nanos: int, digits: nat)
    requires
        is_precision(nanos, digits),
    ensures
        precision_digits(nanos) == digits,
        precision_quantum(nanos) == one_unit(nanos, digits),
{
    lemma_precision_is_unique(nanos, digits, precision_digits(nanos));
}

/// A day is shown to 5 places, the last of which changes every 0.864 seconds.
pub proof fn lemma_day_precision()
    ensures
        precision_digits(NANOS_PER_DAY as int) == 5,
        precision_quantum(NANOS_PER_DAY as int) == 864_000_000,
{
    let day = NANOS_PER_DAY as int;
    lemma_pow0(10);
    lemma_one_more_place(day, 0);
    lemma_one_more_place(day, 1);
    lemma_one_more_place(day, 2);
    lemma_one_more_place(day, 3);
    lemma_one_more_place(day, 4);
    assert(one_unit(day, 4) == 8_640_000_000);
    assert(one_unit(day, 5) == 864_000_000);
    lemma_precision_found(day, 5);
}

/// A year of 365 or 366 days is shown to 8 places; the last of them stands
/// for the year's hundred-millionth part, a little under a third of a second.
pub proof fn lemma_year_precision(days: int)
    requires
        days == 365 || days == 366,
    ensures
        precision_digits(days * NANOS_PER_DAY) == 8,
        precision_quantum(days * NANOS_PER_DAY) == days * 864_000,
{
    let year = days * NANOS_PER_DAY;
    lemma_pow0(10);
    lemma_one_more_place(year, 0);
    lemma_one_more_place(year, 1);
    lemma_one_more_place(year, 2);
    lemma_one_more_place(year, 3);
    lemma_one_more_place(year, 4);
    lemma_one_more_place(year, 5);
    lemma_one_more_place(year, 6);
    lemma_one_more_place(year, 7);
    assert(one_unit(year, 7) == days * 8_640_000);
    assert(one_unit(year, 8) == days * 864_000);
    lemma_precision_found(year, 8);
}

/// One more decimal place divides the unit by ten.
proof fn lemma_one_more_place(nanos: int, digits: nat)
    requires
        nanos >= 0,
    ensures
        one_unit(nanos, digits + 1) == one_unit(nanos, digits) / 10,
        pow(10, digits) > 0,
        one_unit(nanos, digits) * pow(10, digits) <= nanos,
{
    lemma_pow_positive(10, digits);
    lemma_pow1(10);
    lemma_pow_adds(10, digits, 1);
    lemma_div_denominator(nanos, pow(10, digits), 10);
    lemma_fundamental_div_mod(nanos, pow(10, digits));
    assert(pow(10, digits) * (nanos / pow(10, digits)) == (nanos / pow(10, digits)) * pow(
        10,
        digits,
    )) by (nonlinear_arith);
}

/// The places are few: a span that fits the counter has a unit of a second
/// or less well before 30 places.
proof fn lemma_places_are_few(nanos: int, digits: nat)
    requires
        0 <= nanos <= i128::MAX,
        one_unit(nanos, digits) > NANOS_PER_SECOND,
    ensures
        digits < 30,
{
    lemma_one_more_place(nanos, digits);
    let unit = one_unit(nanos, digits);
    let scale = pow(10, digits);
    assert(scale * 1_000_000_000 <= unit * scale) by (nonlinear_arith)
        requires
            scale > 0,
            unit > 1_000_000_000,
    ;
    assert(pow(10, 30) == 1_000_000_000_000_000_000_000_000_000_000) by {
        reveal_with_fuel(pow, 31);
    }
    if digits >= 30 {
        lemma_pow_strictly_increases_converse(10, digits, 30);
    }
}

/// For a span of time, the number of decimal places to show of a fraction of
/// it, so that the last place changes no faster than once a second, and the
/// time between two changes of that place.
///
/// A span of a second or less, and so a negative one, needs no places and is
/// its own unit. No span needs more than 30 places.
pub fn second_ish_precision(duration: Duration) -> (precision: (usize, Duration))
    ensures
        is_precision(duration.nanos as int, precision.0 as nat),
        precision.0 == precision_digits(duration.nanos as int),
        precision.1.nanos == precision_quantum(duration.nanos as int),
        precision.1.nanos == one_unit(duration.nanos as int, precision.0 as nat),
        precision.1.nanos <= NANOS_PER_SECOND,
        precision.0 <= 30,
        duration.nanos > 0 ==> precision.1.nanos >= 0,
{
    let mut digits: usize = 0;
    let mut quantum: i128 = duration.nanos;
    proof {
        lemma_pow0(10);
    }
    while quantum > NANOS_PER_SECOND
        invariant
            quantum == one_unit(duration.nanos as int, digits as nat),
            forall|fewer: nat|
                fewer < digits ==> #[trigger] one_unit(duration.nanos as int, fewer)
                    > NANOS_PER_SECOND,
            digits <= 30,
            digits > 0 ==> duration.nanos > 0 && quantum >= 0,
        decreases quantum,
    {
        proof {
            if digits == 0 {
                lemma_pow0(10);
            }
            lemma_places_are_few(duration.nanos as int, digits as nat);
            lemma_one_more_place(duration.nanos as int, digits as nat);
        }
        quantum = quantum / 10;
        digits = digits + 1;
    }
    proof {
        lemma_precision_found(duration.nanos as int, digits as nat);
    }
    (digits, Duration { nanos: quantum })
}

} // verus!
