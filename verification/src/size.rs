//! Sizes in bytes as they are shown.

use crate::rounding::{divide_half_even, half_even, round_to_grain, rounded_to_grain};
use crate::text::{decimal_text, pad_left, pad_right};
use vstd::prelude::*;

verus! {

/// How often a size is divided by 1024 before it is shown: until it is below 1024, at most four
/// times.
pub open spec fn unit_index(value: nat) -> int {
    if value < 1024 {
        0
    } else if value < 0x10_0000 {
        1
    } else if value < 0x4000_0000 {
        2
    } else if value < 0x100_0000_0000 {
        3
    } else {
        4
    }
}

/// The number of bytes in a unit.
pub open spec fn unit_bytes(unit: int) -> nat {
    if unit == 0 {
        1
    } else if unit == 1 {
        1024
    } else if unit == 2 {
        0x10_0000
    } else if unit == 3 {
        0x4000_0000
    } else {
        0x100_0000_0000
    }
}

/// The name of a unit.
pub open spec fn unit_name(unit: int) -> Seq<char> {
    if unit == 0 {
        "B"@
    } else if unit == 1 {
        "KB"@
    } else if unit == 2 {
        "MB"@
    } else if unit == 3 {
        "GB"@
    } else {
        "TB"@
    }
}

/// The number that is shown for a size: whole bytes below 1024, else a number of units with one
/// decimal place below ten units and none from there on.
pub open spec fn size_number(bytes: nat) -> Seq<char> {
    let value = rounded_to_grain(bytes);
    let unit = unit_index(value);
    if unit == 0 {
        crate::text::decimal(bytes)
    } else if value < 10 * unit_bytes(unit) {
        let tenths = half_even(10 * value, unit_bytes(unit));
        crate::text::decimal(tenths / 10) + "."@ + crate::text::decimal(tenths % 10)
    } else {
        crate::text::decimal(half_even(value, unit_bytes(unit)))
    }
}

/// The unit that is shown for a size.
pub open spec fn size_unit(bytes: nat) -> Seq<char> {
    unit_name(unit_index(rounded_to_grain(bytes)))
}

/// A size as it is shown.
pub open spec fn size_text(bytes: nat) -> Seq<char> {
    size_number(bytes) + " "@ + size_unit(bytes)
}

/// A size as it is shown in a column: the number flush right, the unit flush left.
pub open spec fn size_cell_text(bytes: nat) -> Seq<char> {
    crate::text::padded_left(size_number(bytes), 6) + " "@ + crate::text::padded_right(
        size_unit(bytes),
        2,
    )
}

/// The parts of a size as it is shown: the number and the unit.
fn size_parts(bytes: u64) -> (result: (String, String))
    ensures
        result.0@ == size_number(bytes as nat),
        result.1@ == size_unit(bytes as nat),
{
    let value: u128 = round_to_grain(bytes);
    if value < 1024 {
        return (decimal_text(bytes as u128), "B".to_owned());
    }
    let (unit, name): (u128, &str) = if value < 0x10_0000 {
        (1024, "KB")
    } else if value < 0x4000_0000 {
        (0x10_0000, "MB")
    } else if value < 0x100_0000_0000 {
        (0x4000_0000, "GB")
    } else {
        (0x100_0000_0000, "TB")
    };
    assert(unit == unit_bytes(unit_index(value as nat)));
    if value < 10 * unit {
        let tenths: u128 = divide_half_even(10 * value, unit);
        let number = decimal_text(tenths / 10).concat(".").concat(
            decimal_text(tenths % 10).as_str(),
        );
        (number, name.to_owned())
    } else {
        let whole: u128 = divide_half_even(value, unit);
        (decimal_text(whole), name.to_owned())
    }
}

/// Writes a size in the largest unit of which it holds at least one.
pub fn format_bytes(bytes: u64) -> (result: String)
    ensures
        result@ == size_text(bytes as nat),
{
    let (number, unit) = size_parts(bytes);
    number.concat(" ").concat(unit.as_str())
}

/// Writes a size for a column: the number flush right in six places, the unit flush left in
/// two.
pub fn format_size_cell(bytes: u64) -> (result: String)
    ensures
        result@ == size_cell_text(bytes as nat),
{
    let (number, unit) = size_parts(bytes);
    pad_left(number.as_str(), 6).concat(" ").concat(pad_right(unit.as_str(), 2).as_str())
}

} // verus!
