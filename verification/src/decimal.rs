//! Writing an exact reading in decimal notation, to a given number of places.

use vstd::prelude::*;
use vstd::arithmetic::div_mod::lemma_fundamental_div_mod;
use vstd::arithmetic::div_mod::lemma_fundamental_div_mod_converse;
use vstd::arithmetic::div_mod::lemma_mod_multiples_vanish;
use vstd::arithmetic::power::lemma_pow0;
use vstd::arithmetic::power::lemma_pow1;
use vstd::arithmetic::power::lemma_pow_adds;
use vstd::arithmetic::power::lemma_pow_increases;
use vstd::arithmetic::power::lemma_pow_positive;
use vstd::arithmetic::power::pow;
use vstd::string::StringExecFns;
use crate::fraction::Fraction;

verus! {

/// The most decimal places that a reading can be written to.
pub const MAX_PLACES: usize = 38;

/// The character that stands for a decimal digit.
pub open spec fn digit_char(digit: int) -> char {
    if digit == 0 {
        '0'
    } else if digit == 1 {
        '1'
    } else if digit == 2 {
        '2'
    } else if digit == 3 {
        '3'
    } else if digit == 4 {
        '4'
    } else if digit == 5 {
        '5'
    } else if digit == 6 {
        '6'
    } else if digit == 7 {
        '7'
    } else if digit == 8 {
        '8'
    } else {
        '9'
    }
}

/// A whole number in decimal notation, without leading zeros.
pub open spec fn whole_text(number: int) -> Seq<char>
    decreases number,
{
    if number < 10 {
        seq![digit_char(number)]
    } else {
        whole_text(number / 10).push(digit_char(number % 10))
    }
}

/// The last `places` decimal digits of a whole number, zeros in front where it has fewer.
pub open spec fn padded_text(number: int, places: nat) -> Seq<char>
    decreases places,
{
    if places == 0 {
        Seq::empty()
    } else {
        padded_text(number / 10, (places - 1) as nat).push(digit_char(number % 10))
    }
}

/// The size of `num / den`, in units of the last of `places` decimal places,
/// rounded to the nearest whole number of units, and to the even one of the
/// two where it lies halfway between them.
pub open spec fn rounded_units(num: int, den: int, places: nat) -> int {
    let size = if num < 0 {
        -num
    } else {
        num
    };
    let below = (size * pow(10, places)) / den;
    let rest = (size * pow(10, places)) % den;
    if 2 * rest > den || (2 * rest == den && below % 2 == 1) {
        below + 1
    } else {
        below
    }
}

/// `num / den` in decimal notation, rounded to `places` decimal places: a
/// minus sign if the number is negative, also where it rounds to 0, the
/// whole part, and, where there are places to show, a point and that many
/// digits.
pub open spec fn decimal_text(num: int, den: int, places: nat) -> Seq<char> {
    let units = rounded_units(num, den, places);
    let sign = if num < 0 {
        seq!['-']
    } else {
        Seq::empty()
    };
    let whole = whole_text(units / pow(10, places));
    let part = if places == 0 {
        Seq::empty()
    } else {
        seq!['.'] + padded_text(units % pow(10, places), places)
    };
    sign + whole + part
}

/// Appends one decimal digit.
fn push_digit(text: &mut String, digit: u8)
    requires
        digit < 10,
    ensures
        final(text)@ == old(text)@.push(digit_char(digit as int)),
{
    proof {
        reveal_strlit("0");
        reveal_strlit("1");
        reveal_strlit("2");
        reveal_strlit("3");
        reveal_strlit("4");
        reveal_strlit("5");
        reveal_strlit("6");
        reveal_strlit("7");
        reveal_strlit("8");
        reveal_strlit("9");
    }
    let glyph = if digit == 0 {
        "0"
    } else if digit == 1 {
        "1"
    } else if digit == 2 {
        "2"
    } else if digit == 3 {
        "3"
    } else if digit == 4 {
        "4"
    } else if digit == 5 {
        "5"
    } else if digit == 6 {
        "6"
    } else if digit == 7 {
        "7"
    } else if digit == 8 {
        "8"
    } else {
        "9"
    };
    assert(glyph@ =~= seq![digit_char(digit as int)]);
    text.append(glyph);
    assert(text@ =~= old(text)@.push(digit_char(digit as int)));
}

/// Appends a whole number in decimal notation.
fn push_whole(text: &mut String, number: u128)
    ensures
        final(text)@ == old(text)@ + whole_text(number as int),
    decreases number,
{
    if number >= 10 {
        push_whole(text, number / 10);
    }
    push_digit(text, (number % 10) as u8);
    assert(text@ =~= old(text)@ + whole_text(number as int));
}

/// Appends the last `places` decimal digits of a whole number.
fn push_padded(text: &mut String, number: u128, places: usize)
    ensures
        final(text)@ == old(text)@ + padded_text(number as int, places as nat),
    decreases places,
{
    if places > 0 {
        push_padded(text, number / 10, places - 1);
        push_digit(text, (number % 10) as u8);
    }
    assert(text@ =~= old(text)@ + padded_text(number as int, places as nat));
}

/// The next digit of a long division: how often `den` goes into ten times
/// the rest of the step before, and the rest that it leaves.
fn next_digit(rest: u128, den: u128) -> (step: (u8, u128))
    requires
        rest < den <= i128::MAX,
    ensures
        10 * rest == step.0 * den + step.1,
        step.1 < den,
        step.0 < 10,
{
    let mut digit: u8 = 0;
    let mut left: u128 = 0;
    let mut times: u8 = 0;
    while times < 10
        invariant
            times <= 10,
            digit <= times,
            times * rest == digit * den + left,
            left < den,
            rest < den <= i128::MAX,
        decreases 10 - times,
    {
        proof {
            assert((times + 1) * rest == times * rest + rest) by (nonlinear_arith);
            assert((digit + 1) * den == digit * den + den) by (nonlinear_arith);
        }
        left = left + rest;
        if left >= den {
            left = left - den;
            digit = digit + 1;
        }
        times = times + 1;
    }
    proof {
        if digit == 10 {
            assert(digit * den == 10 * den) by (nonlinear_arith)
                requires
                    digit == 10,
            ;
        }
    }
    (digit, left)
}

/// The powers of ten that a counter of 128 bits holds.
proof fn lemma_power_of_ten_fits(places: nat)
    requires
        places <= MAX_PLACES,
    ensures
        0 < pow(10, places) <= 100_000_000_000_000_000_000_000_000_000_000_000_000,
        pow(10, places + 1) == 10 * pow(10, places),
{
    lemma_pow_positive(10, places);
    lemma_pow_increases(10, places, 38);
    assert(pow(10, 38) == 100_000_000_000_000_000_000_000_000_000_000_000_000) by {
        assert(pow(10, 19) == 10_000_000_000_000_000_000) by {
            reveal_with_fuel(pow, 20);
        }
        lemma_pow_adds(10, 19, 19);
    }
    lemma_pow1(10);
    lemma_pow_adds(10, places, 1);
}

impl Fraction {
    /// The fraction in decimal notation, rounded to `places` decimal places,
    /// halfway cases to the even neighbour.
    pub fn to_decimal(&self, places: usize) -> (text: String)
        requires
            self.valid(),
            places <= MAX_PLACES,
        ensures
            text@ == decimal_text(self.num as int, self.den as int, places as nat),
    {
        let size: u128 = if self.num >= 0 {
            self.num as u128
        } else {
            (-(self.num + 1)) as u128 + 1
        };
        let den: u128 = self.den as u128;
        let mut whole: u128 = size / den;
        let mut rest: u128 = size % den;
        let mut part: u128 = 0;
        let mut scale: u128 = 1;
        let mut shown: usize = 0;
        proof {
            lemma_pow0(10);
            lemma_fundamental_div_mod(size as int, den as int);
            assert(size * 1 == (whole * 1 + 0) * den + rest) by (nonlinear_arith)
                requires
                    size == den * whole + rest,
            ;
        }
        while shown < places
            invariant
                shown <= places <= MAX_PLACES,
                scale == pow(10, shown as nat),
                part < scale,
                rest < den <= i128::MAX,
                whole <= size,
                size <= i128::MAX + 1,
                size * scale == (whole * scale + part) * den + rest,
            decreases places - shown,
        {
            let (digit, left) = next_digit(rest, den);
            proof {
                lemma_power_of_ten_fits(shown as nat);
                lemma_power_of_ten_fits((shown + 1) as nat);
                let below = whole * scale + part;
                assert(size * (10 * scale) == (whole * (10 * scale) + (10 * part + digit)) * den
                    + left) by (nonlinear_arith)
                    requires
                        size * scale == below * den + rest,
                        below == whole * scale + part,
                        10 * rest == digit * den + left,
                ;
            }
            part = part * 10 + digit as u128;
            scale = scale * 10;
            rest = left;
            shown = shown + 1;
        }
        // Round to the nearest unit of the last place, halfway cases to the even one.
        let odd = if places == 0 {
            whole % 2 == 1
        } else {
            part % 2 == 1
        };
        let ghost below = whole * scale + part;
        proof {
            lemma_power_of_ten_fits(places as nat);
            lemma_fundamental_div_mod_converse(size * scale, den as int, below, rest as int);
            if places > 0 {
                lemma_power_of_ten_fits((places - 1) as nat);
                let half = whole * (5 * pow(10, (places - 1) as nat));
                assert(whole * scale == 2 * half) by (nonlinear_arith)
                    requires
                        scale == 10 * pow(10, (places - 1) as nat),
                        half == whole * (5 * pow(10, (places - 1) as nat)),
                ;
                lemma_mod_multiples_vanish(half, part as int, 2);
            }
            assert(odd == (below % 2 == 1));
        }
        let up = rest + rest > den || (rest + rest == den && odd);
        if up {
            proof {
                assert((whole + 1) * scale == whole * scale + scale) by (nonlinear_arith);
            }
            part = part + 1;
            if part == scale {
                part = 0;
                whole = whole + 1;
            }
        }
        proof {
            let units = rounded_units(self.num as int, self.den as int, places as nat);
            assert(units == if up {
                below + 1
            } else {
                below
            });
            assert(units == whole * scale + part);
            lemma_fundamental_div_mod_converse(units, scale as int, whole as int, part as int);
        }
        let mut text = String::new();
        if self.num < 0 {
            proof {
                reveal_strlit("-");
            }
            text.append("-");
        }
        push_whole(&mut text, whole);
        if places > 0 {
            proof {
                reveal_strlit(".");
            }
            text.append(".");
            push_padded(&mut text, part, places);
        }
        assert(text@ =~= decimal_text(self.num as int, self.den as int, places as nat));
        text
    }
}

} // verus!
