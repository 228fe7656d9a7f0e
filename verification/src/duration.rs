//! Spans of time as they are shown.

use crate::rounding::{
    divide_half_even, half_even, round_to_binary, round_to_grain, rounded_to_grain, to_binary,
    BinaryFraction,
};
use crate::text::{decimal, decimal_text};
use crate::time::TimeSpan;
use vstd::arithmetic::power2::pow2;
use vstd::prelude::*;

verus! {

/// A span of time in seconds, as floating point adds it up: the whole seconds and the seconds
/// behind them are each rounded to fifty-three binary digits, and so is their sum.
pub open spec fn seconds(span: TimeSpan) -> BinaryFraction {
    let whole = rounded_to_grain(span.secs as nat);
    let behind = to_binary(span.nanos as nat, 1_000_000_000);
    to_binary(whole * pow2(behind.places) + behind.count, pow2(behind.places))
}

/// A span of time as it is shown: in seconds with one decimal place.
pub open spec fn duration_text(span: TimeSpan) -> Seq<char> {
    if span.secs == 0 && span.nanos == 0 {
        "0.0s"@
    } else {
        let tenths = half_even(10 * seconds(span).count, pow2(seconds(span).places));
        decimal(tenths / 10) + "."@ + decimal(tenths % 10) + "s"@
    }
}

/// Writes a span of time in seconds with one decimal place.
pub fn format_duration(duration: TimeSpan) -> (result: String)
    ensures
        result@ == duration_text(duration),
{
    if duration.secs == 0 && duration.nanos == 0 {
        return "0.0s".to_owned();
    }
    let whole: u128 = round_to_grain(duration.secs);
    let (behind, unit): (u128, u128) = round_to_binary(
        (duration.nanos / 1_000_000_000) as u128,
        (duration.nanos % 1_000_000_000) as u128,
        1_000_000_000,
    );
    let over: u128 = behind / unit;
    let part: u128 = behind % unit;
    proof {
        assert(behind == over * unit + part && over <= behind) by (nonlinear_arith)
            requires
                over == behind / unit,
                part == behind % unit,
                unit > 0,
        ;
        assert((whole + over) * unit + part == whole * unit + behind) by (nonlinear_arith)
            requires
                behind == over * unit + part,
        ;
    }
    let (count, power): (u128, u128) = round_to_binary(whole + over, part, unit);
    let tenths: u128 = divide_half_even(10 * count, power);
    decimal_text(tenths / 10).concat(".").concat(
        decimal_text(tenths % 10).as_str(),
    ).concat("s")
}

} // verus!
