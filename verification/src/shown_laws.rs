//! What numbers, sizes, ages and paths look like.

use crate::pieces::{
    compact_path_text, last_two_names, slashes, without_prefix, without_suffix,
};
use crate::rounding::{grain_bounds, half_even, rounded_to_grain, short_numbers_stay};
use crate::size::{size_cell_text, size_number, size_text, size_unit};
use crate::text::{decimal, padded_left, padded_right, spaces};
use crate::time::{days_ago_text, days_since, Timestamp};
use vstd::prelude::*;

verus! {

/// The number that decimal digits stand for.
pub open spec fn number_of(digits: Seq<char>) -> int
    decreases digits.len(),
{
    if digits.len() == 0 {
        0
    } else {
        10 * number_of(digits.drop_last()) + (digits.last() as int - '0' as int)
    }
}

/// A number is written in digits that stand for it, without zeros in front.
pub proof fn digits_stand_for_their_number(number: nat)
    ensures
        number_of(decimal(number)) == number,
        decimal(number).len() > 0,
        forall|index: int|
            0 <= index < decimal(number).len() ==> '0' <= #[trigger] decimal(number)[index] <= '9',
        number > 0 ==> decimal(number)[0] != '0',
    decreases number,
{
    reveal_with_fuel(number_of, 2);
    let text = decimal(number);
    if number < 10 {
        assert(text.drop_last() =~= Seq::<char>::empty());
    } else {
        digits_stand_for_their_number(number / 10);
        assert(text.drop_last() =~= decimal(number / 10));
    }
}

/// Whether a whole number is the nearest one to a quotient, and the even one of two that are
/// equally near.
pub open spec fn is_nearest(dividend: int, divisor: int, quotient: int) -> bool {
    let off = dividend - quotient * divisor;
    &&& -divisor <= 2 * off <= divisor
    &&& 2 * off == divisor || 2 * off == -divisor ==> quotient % 2 == 0
}

/// Rounding gives the nearest whole number, and the even one of two that are equally near.
pub proof fn rounding_is_nearest(dividend: nat, divisor: nat)
    requires
        divisor > 0,
    ensures
        is_nearest(dividend as int, divisor as int, half_even(dividend, divisor) as int),
{
    let quotient = dividend / divisor;
    let rest = dividend % divisor;
    assert(dividend == quotient * divisor + rest && rest < divisor) by (nonlinear_arith)
        requires
            quotient == dividend / divisor,
            rest == dividend % divisor,
            divisor > 0,
    ;
    assert((quotient + 1) * divisor == quotient * divisor + divisor) by (nonlinear_arith);
}

/// The unit that a size is shown in from 1024 bytes on: the largest one of which there is at least
/// one.
pub open spec fn shown_unit(bytes: int) -> (int, Seq<char>) {
    if bytes < 0x10_0000 {
        (0x400, "KB"@)
    } else if bytes < 0x4000_0000 {
        (0x10_0000, "MB"@)
    } else if bytes < 0x100_0000_0000 {
        (0x4000_0000, "GB"@)
    } else {
        (0x100_0000_0000, "TB"@)
    }
}

/// A size is shown in bytes below 1024, and from there on in its unit: with the nearest tenth
/// below ten units, and as the nearest whole number from ten units on.
pub proof fn sizes_are_shown_to_the_nearest(bytes: nat)
    requires
        bytes < 0x20_0000_0000_0000,
    ensures
        bytes < 1024 ==> size_text(bytes) == decimal(bytes) + " "@ + "B"@,
        ({
            let (unit, name) = shown_unit(bytes as int);
            &&& 1024 <= bytes < 10 * unit ==> exists|tenths: nat|
                #[trigger] is_nearest((10 * bytes) as int, unit, tenths as int) && size_text(bytes)
                    == decimal(tenths / 10) + "."@ + decimal(tenths % 10) + " "@ + name
            &&& bytes >= 10 * unit ==> exists|whole: nat|
                #[trigger] is_nearest(bytes as int, unit, whole as int) && size_text(bytes)
                    == decimal(whole) + " "@ + name
        }),
{
    short_numbers_stay(bytes);
    let (unit, name) = shown_unit(bytes as int);
    rounding_is_nearest(10 * bytes, unit as nat);
    rounding_is_nearest(bytes, unit as nat);
    if bytes >= 1024 {
        if bytes < 10 * unit {
            let tenths = half_even(10 * bytes, unit as nat);
            assert(is_nearest((10 * bytes) as int, unit, tenths as int));
            assert(size_text(bytes) == decimal(tenths / 10) + "."@ + decimal(tenths % 10) + " "@
                + name);
        } else {
            let whole = half_even(bytes, unit as nat);
            assert(is_nearest(bytes as int, unit, whole as int));
            assert(size_text(bytes) == decimal(whole) + " "@ + name);
        }
    }
}

/// A size of more than fifty-three binary digits is shown in whole units of the largest kind,
/// nearest but for what floating point cannot hold.
pub proof fn huge_sizes_are_shown_in_terabytes(bytes: u64)
    requires
        bytes >= 0x20_0000_0000_0000,
    ensures
        exists|whole: nat| #[trigger]
            shows_terabytes(bytes as nat, whole) && -0x100_0000_2000 <= 2 * (bytes - whole
                * 0x100_0000_0000) <= 0x100_0000_2000,
{
    let number = bytes as nat;
    let width = crate::rounding::grain(number);
    grain_bounds(number);
    rounding_is_nearest(number, width);
    let value = rounded_to_grain(number);
    rounding_is_nearest(value, 0x100_0000_0000);
    let whole = half_even(value, 0x100_0000_0000);
    assert(shows_terabytes(number, whole));
}

/// Whether a size is shown as a whole number of terabytes.
pub open spec fn shows_terabytes(bytes: nat, whole: nat) -> bool {
    size_text(bytes) == decimal(whole) + " "@ + "TB"@
}

/// Whether a text is made of spaces.
pub open spec fn is_blank(text: Seq<char>) -> bool {
    forall|index: int| 0 <= index < text.len() ==> #[trigger] text[index] == ' '
}

/// In its column a size is the number, flush right in six places, a space, and the unit, flush
/// left in two; together they are the size as it is shown elsewhere.
pub proof fn size_cells_line_up(bytes: nat)
    ensures
        exists|before: Seq<char>, number: Seq<char>, unit: Seq<char>, behind: Seq<char>|
            {
                &&& size_cell_text(bytes) == #[trigger] (before + number) + " "@ + #[trigger] (unit
                    + behind)
                &&& size_text(bytes) == number + " "@ + unit
                &&& is_blank(before) && is_blank(behind)
                &&& before.len() == if number.len() < 6 {
                    6 - number.len()
                } else {
                    0
                }
                &&& behind.len() == if unit.len() < 2 {
                    2 - unit.len()
                } else {
                    0
                }
            },
{
    let number = size_number(bytes);
    let unit = size_unit(bytes);
    let before = spaces(6 - number.len());
    let behind = spaces(2 - unit.len());
    assert(size_cell_text(bytes) == (before + number) + " "@ + (unit + behind));
}

/// A text that is padded keeps its characters and is at least as long as it is to be; what is
/// added are spaces on one side.
pub proof fn padding_adds_spaces(text: Seq<char>, width: int)
    ensures
        padded_right(text, width).take(text.len() as int) == text,
        is_blank(padded_right(text, width).skip(text.len() as int)),
        padded_right(text, width).len() == if text.len() < width {
            width
        } else {
            text.len() as int
        },
        padded_left(text, width).skip(padded_left(text, width).len() - text.len()) == text,
        padded_left(text, width).len() == padded_right(text, width).len(),
{
    assert(padded_right(text, width).take(text.len() as int) =~= text);
    assert(padded_left(text, width).skip(padded_left(text, width).len() - text.len()) =~= text);
}

/// An age is counted in whole days: what was changed some days and less than one more day ago is
/// that many days old. What is yet to come is no day old.
pub proof fn ages_are_whole_days(now: Timestamp, time: Timestamp, days: nat)
    ensures
        days * 86_400_000_000_000 <= now.instant() - time.instant() < (days + 1)
            * 86_400_000_000_000 ==> days_since(now, time) == days,
        now.instant() < time.instant() ==> days_since(now, time) == 0,
{
    let since = now.instant() - time.instant();
    if days * 86_400_000_000_000 <= since < (days + 1) * 86_400_000_000_000 {
        assert(since / 1_000_000_000 / 86_400 == days);
    }
}

/// An age is told in days below a week, in weeks below thirty days, and in months of thirty days
/// from there on, each counted in full ones.
pub proof fn ages_are_told_in_full_units(days: nat, count: nat)
    ensures
        days == 0 ==> days_ago_text(days) == "today"@,
        days == 1 ==> days_ago_text(days) == "yesterday"@,
        2 <= days <= 6 ==> days_ago_text(days) == decimal(days) + " days ago"@,
        7 <= days <= 13 ==> days_ago_text(days) == "1 week ago"@,
        14 <= days <= 29 && 7 * count <= days < 7 * count + 7 ==> days_ago_text(days) == decimal(
            count,
        ) + " weeks ago"@,
        30 <= days <= 59 ==> days_ago_text(days) == "1 month ago"@,
        days >= 60 && 30 * count <= days < 30 * count + 30 ==> days_ago_text(days) == decimal(count)
            + " months ago"@,
{
}

proof fn slashes_of_parts(first: Seq<char>, second: Seq<char>)
    ensures
        slashes(first + second) == slashes(first) + slashes(second),
    decreases first.len(),
{
    if first.len() == 0 {
        assert(first + second =~= second);
    } else {
        slashes_of_parts(first.drop_first(), second);
        assert((first + second).drop_first() =~= first.drop_first() + second);
    }
}

proof fn no_slash_counts_none(text: Seq<char>)
    requires
        !text.contains('/'),
    ensures
        slashes(text) == 0,
    decreases text.len(),
{
    if text.len() > 0 {
        assert(text[0] != '/');
        assert(!text.drop_first().contains('/')) by {
            if text.drop_first().contains('/') {
                let at = text.drop_first().index_of('/');
                assert(text[at + 1] == '/');
            }
        }
        no_slash_counts_none(text.drop_first());
    }
}

/// The names of a path end where the last two of them do, whatever stands before.
proof fn last_names_are_kept(before: Seq<char>, outer: Seq<char>, name: Seq<char>)
    requires
        !outer.contains('/'),
        !name.contains('/'),
    ensures
        last_two_names(before + "/"@ + outer + "/"@ + name) == outer + "/"@ + name,
        last_two_names(outer + "/"@ + name) == outer + "/"@ + name,
    decreases before.len(),
{
    reveal_strlit("/");
    let kept = outer + "/"@ + name;
    let text = before + "/"@ + outer + "/"@ + name;
    assert(text =~= before + ("/"@ + kept));
    no_slash_counts_none(outer);
    no_slash_counts_none(name);
    slashes_of_parts(outer, "/"@ + name);
    slashes_of_parts("/"@, name);
    slashes_of_parts("/"@, kept);
    slashes_of_parts(before, "/"@ + kept);
    assert(outer + ("/"@ + name) =~= kept);
    assert("/"@.drop_first() =~= Seq::<char>::empty());
    assert(slashes("/"@) == 1) by {
        reveal_with_fuel(slashes, 2);
    }
    assert(slashes(kept) == 1);
    assert(slashes(text) >= 2);
    assert(last_two_names(kept) == kept);
    assert(last_two_names(text) == last_two_names(text.drop_first()));
    if before.len() == 0 {
        assert(text.drop_first() =~= kept);
    } else {
        last_names_are_kept(before.drop_first(), outer, name);
        assert(text.drop_first() =~= before.drop_first() + "/"@ + outer + "/"@ + name);
    }
}

proof fn other_names_do_not_end_in_target(before: Seq<char>, name: Seq<char>)
    requires
        !name.contains('/'),
        name != "target"@,
    ensures
        !"/target"@.is_suffix_of(before + "/"@ + name),
        !"/target"@.is_suffix_of(name),
{
    reveal_strlit("/");
    reveal_strlit("/target");
    reveal_strlit("target");
    let inner = before + "/"@ + name;
    if "/target"@.is_suffix_of(inner) {
        let tail = inner.subrange(inner.len() - 7, inner.len() as int);
        assert(tail == "/target"@);
        if name.len() > 6 {
            assert(inner[inner.len() - 7] == name[name.len() - 7]);
            assert(tail[0] == name[name.len() - 7]);
        } else if name.len() == 6 {
            assert forall|index: int| 0 <= index < 6 implies name[index] == "target"@[index] by {
                assert(tail[index + 1] == inner[inner.len() - 6 + index]);
                assert(inner[inner.len() - 6 + index] == name[index]);
            }
            assert(name =~= "target"@);
        } else {
            let at = inner.len() - name.len() - 1;
            assert(inner[at] == '/');
            assert(tail[6 - name.len()] == inner[at]);
        }
    }
    if "/target"@.is_suffix_of(name) {
        let tail = name.subrange(name.len() - 7, name.len() as int);
        assert(tail[0] == name[name.len() - 7]);
    }
}

proof fn both_ends_are_taken_off(inner: Seq<char>)
    requires
        inner.len() > 0,
        inner[0] != '.',
        !"/target"@.is_suffix_of(inner),
    ensures
        without_suffix(without_prefix("./"@ + inner + "/target"@, "./"@), "/target"@) == inner,
        without_suffix(without_prefix(inner + "/target"@, "./"@), "/target"@) == inner,
{
    reveal_strlit("./");
    reveal_strlit("/target");
    let rest = inner + "/target"@;
    let path = "./"@ + inner + "/target"@;
    assert(path =~= "./"@ + rest);
    assert(path.subrange(0, 2) =~= "./"@);
    assert("./"@.is_prefix_of(path));
    assert(path.skip(2) =~= rest);
    assert(!"./"@.is_prefix_of(rest)) by {
        if "./"@.is_prefix_of(rest) {
            assert(rest.subrange(0, 2)[0] == rest[0]);
        }
    }
    assert(without_prefix(rest, "./"@) == rest);
    assert(without_prefix(path, "./"@) == rest);
    assert(rest.subrange(rest.len() - 7, rest.len() as int) =~= "/target"@);
    assert("/target"@.is_suffix_of(rest));
    assert(rest.take(rest.len() - 7) =~= inner);
    assert(without_suffix(inner, "/target"@) == inner);
    assert(without_suffix(rest, "/target"@) == inner);
}

/// A path that is too long is shown by the name of its project and that of the directory around
/// the project, whatever stands before, and with its end in `target`.
pub proof fn long_paths_keep_two_names(before: Seq<char>, outer: Seq<char>, name: Seq<char>)
    requires
        !outer.contains('/'),
        !name.contains('/'),
        name != "target"@,
        before.len() == 0 || before[0] != '.',
    ensures
        ({
            let inner = before + "/"@ + outer + "/"@ + name;
            let shown = "…/"@ + outer + "/"@ + name + "/target"@;
            &&& inner.len() + 9 > 28 ==> compact_path_text("./"@ + inner + "/target"@) == shown
            &&& inner.len() + 7 > 28 ==> compact_path_text(inner + "/target"@) == shown
        }),
{
    reveal_strlit("./");
    reveal_strlit("/");
    reveal_strlit("/target");
    let inner = before + "/"@ + outer + "/"@ + name;
    assert(inner[0] != '.') by {
        if before.len() > 0 {
            assert(inner[0] == before[0]);
        } else {
            assert(inner[0] == '/');
        }
    }
    other_names_do_not_end_in_target(before + "/"@ + outer, name);
    both_ends_are_taken_off(inner);
    last_names_are_kept(before, outer, name);
    assert("…/"@ + (outer + "/"@ + name) + "/target"@ =~= "…/"@ + outer + "/"@ + name
        + "/target"@);
}

/// What is taken off the ends of a path that is too long is taken off as often as it stands there:
/// one more `./` in front, or one more `/target` at the end, is not seen.
pub proof fn ends_are_taken_off_as_often_as_they_stand(path: Seq<char>)
    requires
        path.len() > 28,
    ensures
        compact_path_text("./"@ + path) == compact_path_text(path),
        path[0] != '.' ==> compact_path_text(path + "/target"@) == compact_path_text(path),
{
    reveal_strlit("./");
    reveal_strlit("/target");
    let longer = "./"@ + path;
    assert(longer.subrange(0, 2) =~= "./"@);
    assert(longer.skip(2) =~= path);
    assert(without_prefix(longer, "./"@) == without_prefix(path, "./"@));
    if path[0] != '.' {
        let twice = path + "/target"@;
        assert(twice[0] == path[0]);
        assert(!"./"@.is_prefix_of(twice)) by {
            if "./"@.is_prefix_of(twice) {
                assert(twice.subrange(0, 2)[0] == twice[0]);
            }
        }
        assert(!"./"@.is_prefix_of(path)) by {
            if "./"@.is_prefix_of(path) {
                assert(path.subrange(0, 2)[0] == path[0]);
            }
        }
        assert(twice.subrange(twice.len() - 7, twice.len() as int) =~= "/target"@);
        assert(twice.take(twice.len() - 7) =~= path);
        assert(without_suffix(twice, "/target"@) == without_suffix(path, "/target"@));
    }
}

/// A path of one or two names that is too long keeps them.
pub proof fn few_names_are_kept(outer: Seq<char>, name: Seq<char>)
    requires
        !outer.contains('/'),
        !name.contains('/'),
        name != "target"@,
        name.len() > 0 && name[0] != '.',
        outer.len() > 0 && outer[0] != '.',
    ensures
        name.len() + 9 > 28 ==> compact_path_text("./"@ + name + "/target"@) == "…/"@ + name
            + "/target"@,
        outer.len() + name.len() + 10 > 28 ==> compact_path_text(
            "./"@ + (outer + "/"@ + name) + "/target"@,
        ) == "…/"@ + outer + "/"@ + name + "/target"@,
{
    reveal_strlit("./");
    reveal_strlit("/");
    reveal_strlit("/target");
    other_names_do_not_end_in_target(outer, name);
    both_ends_are_taken_off(name);
    no_slash_counts_none(name);
    let inner = outer + "/"@ + name;
    assert(inner[0] == outer[0]);
    both_ends_are_taken_off(inner);
    last_names_are_kept(Seq::empty(), outer, name);
    assert("…/"@ + inner + "/target"@ =~= "…/"@ + outer + "/"@ + name + "/target"@);
}

} // verus!
