//! Numbers rounded to fifty-three binary digits, as floating point holds them.

use vstd::arithmetic::div_mod::lemma_fundamental_div_mod_converse;
use vstd::arithmetic::power2::{lemma2_to64, lemma_pow2_unfold, pow2};
use vstd::prelude::*;

verus! {

/// The quotient rounded to the nearest whole number, and to the even one of two that are
/// equally near.
pub open spec fn half_even(dividend: nat, divisor: nat) -> nat {
    let quotient = dividend / divisor;
    let rest = dividend % divisor;
    if 2 * rest < divisor {
        quotient
    } else if 2 * rest > divisor {
        quotient + 1
    } else if quotient % 2 == 0 {
        quotient
    } else {
        quotient + 1
    }
}

/// The distance between neighbouring numbers of fifty-three binary digits around `number`.
pub open spec fn grain(number: nat) -> nat
    decreases number,
{
    if number < 0x20_0000_0000_0000 {
        1
    } else {
        2 * grain(number / 2)
    }
}

/// A number rounded to fifty-three binary digits.
pub open spec fn rounded_to_grain(number: nat) -> nat {
    half_even(number, grain(number)) * grain(number)
}

/// How often a fraction is doubled until its whole part has fifty-three binary digits; not at
/// all where it has more, or where the fraction is zero.
pub open spec fn doublings(dividend: nat, divisor: nat) -> nat
    decreases
            if dividend < divisor * 0x10_0000_0000_0000 {
                divisor * 0x10_0000_0000_0000 - dividend
            } else {
                0
            },
{
    if dividend == 0 || dividend >= divisor * 0x10_0000_0000_0000 {
        0
    } else {
        1 + doublings(2 * dividend, divisor)
    }
}

/// A number with a number of binary places: `count` over two to the power of `places`.
pub struct BinaryFraction {
    pub count: nat,
    pub places: nat,
}

/// A fraction rounded to fifty-three binary digits.
pub open spec fn to_binary(dividend: nat, divisor: nat) -> BinaryFraction {
    let places = doublings(dividend, divisor);
    let width = grain(dividend / divisor);
    BinaryFraction {
        count: if places > 0 {
            half_even(dividend * pow2(places), divisor)
        } else {
            half_even(dividend, divisor * width) * width
        },
        places,
    }
}

/// A number of at most fifty-three binary digits stays as it is.
pub proof fn short_numbers_stay(number: nat)
    requires
        number < 0x20_0000_0000_0000,
    ensures
        rounded_to_grain(number) == number,
{
    assert(grain(number) == 1);
    assert(half_even(number, 1) == number);
    assert(number * 1 == number) by (nonlinear_arith);
}

/// Numbers of at most sixty-six binary digits lie no further apart than 8192 once they are rounded.
pub proof fn grain_bounds(number: nat)
    requires
        number < 0x4_0000_0000_0000_0000,
    ensures
        1 <= grain(number) <= 0x2000,
{
    reveal_with_fuel(grain, 15);
}

/// The whole number next to a quotient and a rest, the even one of two that are equally near.
fn round_half_even(quotient: u128, rest: u128, divisor: u128, Ghost(dividend): Ghost<nat>) -> (result:
    u128)
    requires
        rest < divisor <= 0x1000_0000_0000_0000_0000_0000_0000_0000,
        quotient < u128::MAX,
        dividend == quotient * divisor + rest,
    ensures
        result == half_even(dividend, divisor as nat),
        quotient <= result <= quotient + 1,
{
    proof {
        lemma_fundamental_div_mod_converse(
            dividend as int,
            divisor as int,
            quotient as int,
            rest as int,
        );
    }
    if 2 * rest < divisor {
        quotient
    } else if 2 * rest > divisor {
        quotient + 1
    } else if quotient % 2 == 0 {
        quotient
    } else {
        quotient + 1
    }
}

/// The quotient rounded to the nearest whole number, ties to the even one.
pub fn divide_half_even(dividend: u128, divisor: u128) -> (result: u128)
    requires
        0 < divisor <= 0x1000_0000_0000_0000_0000_0000_0000_0000,
        dividend < u128::MAX,
    ensures
        result == half_even(dividend as nat, divisor as nat),
        dividend / divisor <= result <= dividend / divisor + 1,
{
    let quotient: u128 = dividend / divisor;
    let rest: u128 = dividend % divisor;
    assert(quotient <= dividend) by (nonlinear_arith)
        requires
            quotient == dividend / divisor,
            divisor > 0,
    ;
    assert(dividend == quotient * divisor + rest) by (nonlinear_arith)
        requires
            quotient == dividend / divisor,
            rest == dividend % divisor,
            divisor > 0,
    ;
    round_half_even(quotient, rest, divisor, Ghost(dividend as nat))
}

/// Finds the distance between neighbouring numbers of fifty-three binary digits.
fn find_grain(number: u128) -> (result: u128)
    requires
        number < 0x4_0000_0000_0000_0000,
    ensures
        result == grain(number as nat),
        1 <= result <= 0x2000,
    decreases number,
{
    proof {
        grain_bounds(number as nat);
    }
    if number < 0x20_0000_0000_0000 {
        1
    } else {
        2 * find_grain(number / 2)
    }
}

/// Rounds a number to fifty-three binary digits.
pub fn round_to_grain(number: u64) -> (result: u128)
    ensures
        result == rounded_to_grain(number as nat),
        number > 0 ==> result > 0,
        result <= 0x1_0000_0000_0000_2000,
{
    let width: u128 = find_grain(number as u128);
    let count: u128 = divide_half_even(number as u128, width);
    proof {
        assert(count * width <= number + width) by (nonlinear_arith)
            requires
                count <= number as int / width as int + 1,
                width > 0,
        ;
        if number < 0x20_0000_0000_0000 {
            assert(width == 1);
            assert(number as int / 1 == number);
        } else {
            assert(count >= 1) by (nonlinear_arith)
                requires
                    count >= number as int / width as int,
                    0 < width <= 0x2000,
                    number >= 0x20_0000_0000_0000,
            ;
        }
        assert(number > 0 ==> count * width > 0) by (nonlinear_arith)
            requires
                number > 0 ==> count >= 1,
                width > 0,
        ;
    }
    count * width
}

/// Rounds the fraction `whole + part / divisor` to fifty-three binary digits. Returns the count
/// and two to the power of the places.
pub fn round_to_binary(whole: u128, part: u128, divisor: u128) -> (result: (u128, u128))
    requires
        part < divisor <= 0x8_0000_0000_0000_0000_0000,
        whole < 0x4_0000_0000_0000_0000,
        divisor > 0x4000_0000 ==> whole * divisor + part >= 0x10_0000_0000_0000,
    ensures
        ({
            let rounded = to_binary((whole * divisor + part) as nat, divisor as nat);
            &&& result.0 == rounded.count
            &&& result.1 == pow2(rounded.places)
        }),
        result.0 <= 0x8_0000_0000_0000_0000,
        whole < 0x10_0000_0000_0000 ==> result.0 <= 0x20_0000_0000_0000,
        1 <= result.1 <= 0x10_0000_0000_0000_0000_0000,
        divisor <= 0x4000_0000 ==> result.1 <= 0x8_0000_0000_0000_0000_0000,
        result.1 > 1 ==> result.0 >= 0x10_0000_0000_0000,
{
    let ghost dividend = (whole * divisor + part) as nat;
    proof {
        lemma2_to64();
        assert(dividend as int == whole * divisor + part) by (nonlinear_arith)
            requires
                dividend == (whole * divisor + part) as nat,
                whole >= 0,
                divisor >= 0,
                part >= 0,
        ;
        lemma_fundamental_div_mod_converse(
            dividend as int,
            divisor as int,
            whole as int,
            part as int,
        );
    }
    if whole >= 0x10_0000_0000_0000 {
        let width: u128 = find_grain(whole);
        let quotient: u128 = whole / width;
        let over: u128 = whole % width;
        assert(whole == quotient * width + over) by (nonlinear_arith)
            requires
                quotient == whole / width,
                over == whole % width,
                width > 0,
        ;
        assert(over * divisor + part < width * divisor) by (nonlinear_arith)
            requires
                over < width,
                part < divisor,
        ;
        assert(width * divisor <= 0x2000 * 0x8_0000_0000_0000_0000_0000) by (nonlinear_arith)
            requires
                width <= 0x2000,
                divisor <= 0x8_0000_0000_0000_0000_0000,
        ;
        assert(over * divisor <= over * divisor + part);
        assert(0 <= over * divisor) by (nonlinear_arith);
        let rest: u128 = over * divisor + part;
        assert(dividend == quotient * (divisor * width) + rest) by (nonlinear_arith)
            requires
                dividend == whole * divisor + part,
                rest == over * divisor + part,
                whole == quotient * width + over,
        ;
        assert(divisor * width == width * divisor) by (nonlinear_arith);
        let count: u128 = round_half_even(quotient, rest, divisor * width, Ghost(dividend));
        assert(count * width <= whole + width) by (nonlinear_arith)
            requires
                count <= quotient + 1,
                quotient * width + over == whole,
                over >= 0,
                width > 0,
        ;
        assert(dividend >= divisor * 0x10_0000_0000_0000) by (nonlinear_arith)
            requires
                dividend >= whole * divisor,
                whole >= 0x10_0000_0000_0000,
                divisor >= 0,
        ;
        return (count * width, 1);
    }
    if whole == 0 && part == 0 {
        assert(dividend == 0);
        assert(half_even(0, (divisor * 1) as nat) == 0);
        return (0, 1);
    }
    let mut quotient: u128 = whole;
    let mut rest: u128 = part;
    let mut power: u128 = 1;
    let ghost mut places: nat = 0;
    assert(dividend * power == dividend) by (nonlinear_arith)
        requires
            power == 1,
    ;
    while quotient < 0x10_0000_0000_0000
        invariant
            0 < dividend,
            divisor > 0x4000_0000 ==> dividend >= 0x10_0000_0000_0000,
            divisor <= 0x8_0000_0000_0000_0000_0000,
            rest < divisor,
            quotient < 0x20_0000_0000_0000,
            power == pow2(places),
            power >= 1,
            dividend * power == quotient * divisor + rest,
            doublings(dividend, divisor as nat) == places + doublings(
                (dividend * power) as nat,
                divisor as nat,
            ),
            places == 0 ==> quotient == whole,
            whole < 0x10_0000_0000_0000,
        decreases divisor * 0x20_0000_0000_0000 - dividend * power,
    {
        proof {
            assert(dividend * power < divisor * 0x10_0000_0000_0000) by (nonlinear_arith)
                requires
                    dividend * power == quotient * divisor + rest,
                    quotient + 1 <= 0x10_0000_0000_0000,
                    rest < divisor,
            ;
            power_is_bounded(dividend as int, power as int, divisor as int);
            assert(dividend * (2 * power) == 2 * (dividend * power)) by (nonlinear_arith);
            assert(dividend * power > 0) by (nonlinear_arith)
                requires
                    dividend > 0,
                    power >= 1,
            ;
            lemma_pow2_unfold(places + 1);
            assert((2 * quotient + 1) * divisor == 2 * (quotient * divisor) + divisor)
                by (nonlinear_arith);
            assert((2 * quotient) * divisor == 2 * (quotient * divisor)) by (nonlinear_arith);
        }
        if 2 * rest >= divisor {
            quotient = 2 * quotient + 1;
            rest = 2 * rest - divisor;
        } else {
            quotient = 2 * quotient;
            rest = 2 * rest;
        }
        power = 2 * power;
        proof {
            places = places + 1;
            assert(dividend * power < divisor * 0x20_0000_0000_0000) by (nonlinear_arith)
                requires
                    dividend * power == quotient * divisor + rest,
                    quotient + 1 <= 0x20_0000_0000_0000,
                    rest < divisor,
            ;
        }
    }
    proof {
        assert(dividend * power >= divisor * 0x10_0000_0000_0000) by (nonlinear_arith)
            requires
                dividend * power == quotient * divisor + rest,
                quotient >= 0x10_0000_0000_0000,
        ;
        assert(dividend * power < divisor * 0x20_0000_0000_0000) by (nonlinear_arith)
            requires
                dividend * power == quotient * divisor + rest,
                quotient + 1 <= 0x20_0000_0000_0000,
                rest < divisor,
        ;
        power_is_bounded(dividend as int, power as int, divisor as int);
    }
    let count: u128 = round_half_even(quotient, rest, divisor, Ghost((dividend * power) as nat));
    (count, power)
}

proof fn power_is_bounded(dividend: int, power: int, divisor: int)
    requires
        dividend > 0,
        power >= 1,
        divisor > 0x4000_0000 ==> dividend >= 0x10_0000_0000_0000,
        divisor <= 0x8_0000_0000_0000_0000_0000,
        dividend * power < divisor * 0x20_0000_0000_0000,
    ensures
        power < 0x10_0000_0000_0000_0000_0000,
        divisor <= 0x4000_0000 ==> power < 0x8_0000_0000_0000_0000_0000,
{
    if divisor > 0x4000_0000 {
        assert(power < 0x10_0000_0000_0000_0000_0000) by (nonlinear_arith)
            requires
                dividend >= 0x10_0000_0000_0000,
                power >= 1,
                divisor <= 0x8_0000_0000_0000_0000_0000,
                dividend * power < divisor * 0x20_0000_0000_0000,
        ;
    } else {
        assert(power <= dividend * power) by (nonlinear_arith)
            requires
                dividend >= 1,
                power >= 1,
        ;
    }
}

} // verus!
