//! What spans of time look like.

use crate::duration::{duration_text, seconds};
use crate::rounding::{doublings, half_even, short_numbers_stay, to_binary};
use crate::shown_laws::rounding_is_nearest;
use crate::text::decimal;
use crate::time::TimeSpan;
use vstd::arithmetic::power2::{lemma_pow2_pos, lemma_pow2_unfold, pow2};
use vstd::prelude::*;

verus! {

proof fn doublings_reach_their_aim(dividend: nat, divisor: nat)
    requires
        dividend > 0,
        divisor > 0,
    ensures
        dividend * pow2(doublings(dividend, divisor)) >= divisor * 0x10_0000_0000_0000,
        dividend < divisor * 0x10_0000_0000_0000 ==> doublings(dividend, divisor) > 0,
    decreases
            if dividend < divisor * 0x10_0000_0000_0000 {
                divisor * 0x10_0000_0000_0000 - dividend
            } else {
                0
            },
{
    if dividend >= divisor * 0x10_0000_0000_0000 {
        lemma_pow2_unfold(1);
        assert(pow2(0) == 1) by {
            vstd::arithmetic::power2::lemma2_to64();
        }
        assert(dividend * 1 == dividend) by (nonlinear_arith);
    } else {
        doublings_reach_their_aim(2 * dividend, divisor);
        let rest = doublings(2 * dividend, divisor);
        lemma_pow2_unfold(rest + 1);
        assert((2 * dividend) * pow2(rest) == dividend * (2 * pow2(rest))) by (nonlinear_arith);
    }
}

/// Three roundings that are each small leave the last one the nearest.
proof fn small_errors_do_not_matter(
    unit: int,
    power: int,
    span: int,
    tenths: int,
    last: int,
    second: int,
    first: int,
)
    requires
        unit >= 0x10_0000_0000_0000,
        power >= 0x8000_0000,
        power * unit * (tenths * 1_000_000_000 - 10 * span) == 10 * power * first + 10_000_000_000
            * second + 1_000_000_000 * unit * last,
        -power <= 2 * last <= power,
        -unit <= 2 * second <= unit,
        -1_000_000_000 <= 2 * first <= 1_000_000_000,
    ensures
        -100_000_000 <= 2 * (span - tenths * 100_000_000) <= 100_000_000,
{
    let off = tenths * 100_000_000 - span;
    let both = power * unit;
    assert(both >= 0x10_0000_0000_0000 * power && both >= 0x8000_0000 * unit) by (nonlinear_arith)
        requires
            both == power * unit,
            unit >= 0x10_0000_0000_0000,
            power >= 0x8000_0000,
    ;
    let sum = 10 * power * first + 10_000_000_000 * second + 1_000_000_000 * unit * last;
    assert(-5_000_000_000 * power <= 10 * power * first <= 5_000_000_000 * power)
        by (nonlinear_arith)
        requires
            -1_000_000_000 <= 2 * first <= 1_000_000_000,
            power >= 0,
    ;
    assert(-500_000_000 * both <= 1_000_000_000 * unit * last <= 500_000_000 * both)
        by (nonlinear_arith)
        requires
            both == power * unit,
            -power <= 2 * last <= power,
            unit >= 0,
    ;
    assert(both * (10 * off) == sum) by (nonlinear_arith)
        requires
            both == power * unit,
            power * unit * (tenths * 1_000_000_000 - 10 * span) == sum,
            off == tenths * 100_000_000 - span,
    ;
    assert(sum < 500_000_010 * both);
    assert(sum > -500_000_010 * both);
    if off > 50_000_000 {
        assert(both * (10 * off) >= 500_000_010 * both) by (nonlinear_arith)
            requires
                10 * off >= 500_000_010,
                both >= 0,
        ;
    }
    if off < -50_000_000 {
        assert(both * (10 * off) <= -500_000_010 * both) by (nonlinear_arith)
            requires
                10 * off <= -500_000_010,
                both >= 0,
        ;
    }
}

proof fn tenths_are_nearest(span: TimeSpan)
    requires
        span.secs < 0x20_0000 - 1,
        0 < span.nanos < 1_000_000_000,
    ensures
        ({
            let tenths = half_even(10 * seconds(span).count, pow2(seconds(span).places));
            let nanos = span.secs * 1_000_000_000 + span.nanos;
            -100_000_000 <= 2 * (nanos - tenths * 100_000_000) <= 100_000_000
        }),
{
    let secs = span.secs as nat;
    let nanos = span.nanos as nat;
    short_numbers_stay(secs);
    let behind = to_binary(nanos, 1_000_000_000);
    let unit = pow2(behind.places);
    let m = behind.count;
    lemma_pow2_pos(behind.places);
    doublings_reach_their_aim(nanos, 1_000_000_000);
    assert(m == half_even(nanos * unit, 1_000_000_000));
    rounding_is_nearest(nanos * unit, 1_000_000_000);
    assert(unit >= 0x10_0000_0000_0000) by (nonlinear_arith)
        requires
            nanos * unit >= 1_000_000_000 * 0x10_0000_0000_0000,
            0 < nanos < 1_000_000_000,
            unit > 0,
    ;
    let first = m * 1_000_000_000 - nanos * unit;
    assert(m <= unit) by (nonlinear_arith)
        requires
            m * 1_000_000_000 - nanos * unit <= 500_000_000,
            nanos <= 999_999_999,
            unit >= 500_000_000,
    ;
    let sum = secs * unit + m;
    assert(sum <= 0x20_0000 * unit && sum > 0 && sum < unit * 0x10_0000_0000_0000)
        by (nonlinear_arith)
        requires
            sum == secs * unit + m,
            secs <= 0x20_0000 - 2,
            m <= unit,
            m > 0,
            unit > 0,
    {
        assert(m > 0);
    }
    let rounded = to_binary(sum, unit);
    assert(rounded == seconds(span));
    let power = pow2(rounded.places);
    let count = rounded.count;
    lemma_pow2_pos(rounded.places);
    doublings_reach_their_aim(sum, unit);
    assert(count == half_even(sum * power, unit));
    rounding_is_nearest(sum * power, unit);
    assert(power >= 0x8000_0000) by (nonlinear_arith)
        requires
            sum * power >= unit * 0x10_0000_0000_0000,
            sum <= 0x20_0000 * unit,
            unit > 0,
            power > 0,
    ;
    let second = count * unit - sum * power;
    let tenths = half_even(10 * count, power);
    rounding_is_nearest(10 * count, power);
    let last = tenths * power - 10 * count;
    let total = secs * 1_000_000_000 + nanos;
    assert(sum * 1_000_000_000 == total * unit + first) by (nonlinear_arith)
        requires
            sum == secs * unit + m,
            first == m * 1_000_000_000 - nanos * unit,
            total == secs * 1_000_000_000 + nanos,
    ;
    assert(power * unit * (tenths * 1_000_000_000 - 10 * total) == 10 * power * first
        + 10_000_000_000 * second + 1_000_000_000 * unit * last) by (nonlinear_arith)
        requires
            sum * 1_000_000_000 == total * unit + first,
            second == count * unit - sum * power,
            last == tenths * power - 10 * count,
    ;
    small_errors_do_not_matter(
        unit as int,
        power as int,
        total as int,
        tenths as int,
        last,
        second,
        first,
    );
}

proof fn whole_seconds_stay(span: TimeSpan)
    requires
        span.secs < 0x10_0000_0000_0000,
        span.nanos == 0,
    ensures
        half_even(10 * seconds(span).count, pow2(seconds(span).places)) == 10 * span.secs,
{
    let secs = span.secs as nat;
    short_numbers_stay(secs);
    let behind = to_binary(0, 1_000_000_000);
    assert(pow2(0) == 1) by {
        vstd::arithmetic::power2::lemma2_to64();
    }
    assert(behind.places == 0);
    let width = crate::rounding::grain(0nat / 1_000_000_000);
    assert(width == 1);
    assert(half_even(0, 1_000_000_000) == 0);
    assert(behind.count == half_even(0, 1_000_000_000) * width);
    assert(behind.count == 0) by (nonlinear_arith)
        requires
            behind.count == half_even(0, 1_000_000_000) * width,
            half_even(0, 1_000_000_000) == 0,
    ;
    assert(secs * pow2(0) + 0 == secs) by (nonlinear_arith)
        requires
            pow2(0) == 1,
    ;
    let rounded = to_binary(secs, 1);
    assert(rounded == seconds(span));
    let power = pow2(rounded.places);
    lemma_pow2_pos(rounded.places);
    if secs == 0 {
        assert(rounded.places == 0);
        assert(crate::rounding::grain(0nat / 1) == 1);
        assert(rounded.count == half_even(0, 1) * 1);
        assert(rounded.count == 0);
        assert(half_even(0, 1) == 0);
    } else {
        doublings_reach_their_aim(secs, 1);
        assert(rounded.count == half_even(secs * power, 1));
        assert(half_even(secs * power, 1) == secs * power);
        let dividend = 10 * (secs * power);
        assert(dividend == (10 * secs) * power) by (nonlinear_arith)
            requires
                dividend == 10 * (secs * power),
        ;
        vstd::arithmetic::div_mod::lemma_fundamental_div_mod_converse(
            dividend as int,
            power as int,
            (10 * secs) as int,
            0,
        );
    }
}

/// Whether a text shows a number of tenths as seconds.
pub open spec fn shows_tenths(text: Seq<char>, tenths: nat) -> bool {
    text == decimal(tenths / 10) + "."@ + decimal(tenths % 10) + "s"@
}

/// A span of time is shown in seconds with the nearest tenth, up to some three weeks; longer spans
/// are rounded as floating point holds them.
pub proof fn spans_are_shown_to_the_nearest_tenth(span: TimeSpan)
    requires
        span.secs < 0x20_0000 - 1,
        span.nanos < 1_000_000_000,
    ensures
        exists|tenths: nat|
            {
                &&& #[trigger] shows_tenths(duration_text(span), tenths)
                &&& -100_000_000 <= 2 * (span.secs * 1_000_000_000 + span.nanos - tenths
                    * 100_000_000) <= 100_000_000
            },
{
    if span.secs == 0 && span.nanos == 0 {
        reveal_strlit("0.0s");
        reveal_strlit(".");
        reveal_strlit("s");
        assert("0.0s"@ =~= decimal(0) + "."@ + decimal(0) + "s"@);
        assert(shows_tenths(duration_text(span), 0));
    } else {
        let tenths = half_even(10 * seconds(span).count, pow2(seconds(span).places));
        if span.nanos == 0 {
            whole_seconds_stay(span);
        } else {
            tenths_are_nearest(span);
        }
        assert(shows_tenths(duration_text(span), tenths));
    }
}

/// Whole seconds are shown as they are, with a zero behind the point.
pub proof fn whole_seconds_are_shown_whole(secs: u64)
    requires
        secs < 0x10_0000_0000_0000,
    ensures
        duration_text(TimeSpan { secs, nanos: 0 }) == decimal(secs as nat) + "."@ + decimal(0)
            + "s"@,
{
    let span = TimeSpan { secs, nanos: 0 };
    if secs == 0 {
        reveal_strlit("0.0s");
        reveal_strlit(".");
        reveal_strlit("s");
        assert("0.0s"@ =~= decimal(0) + "."@ + decimal(0) + "s"@);
    } else {
        whole_seconds_stay(span);
    }
}

} // verus!
