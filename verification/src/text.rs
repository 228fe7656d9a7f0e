//! Text as sequences of characters: searching, ordering, padding and decimal numbers.

use std::cmp::Ordering;
use vstd::prelude::*;

verus! {

/// `String::push` puts the given character behind the characters that are there.
pub assume_specification[ String::push ](string: &mut String, character: char)
    ensures
        final(string)@ == old(string)@.push(character),
;

/// `String::pop` takes the last character off and returns it; on an empty string it returns
/// `None` and changes nothing.
pub assume_specification[ String::pop ](string: &mut String) -> (last: Option<char>)
    ensures
        old(string)@.len() == 0 ==> last is None && final(string)@ == old(string)@,
        old(string)@.len() > 0 ==> last == Some(old(string)@.last()) && final(string)@
            == old(string)@.drop_last(),
;

/// The characters of a text.
pub fn characters(text: &str) -> (result: Vec<char>)
    ensures
        result@ == text@,
{
    let mut result: Vec<char> = Vec::new();
    for character in it: text.chars()
        invariant
            it.seq() == text@,
            result@ == text@.take(it.index()),
    {
        result.push(character);
        assert(text@.take(it.index() + 1) == text@.take(it.index()).push(character));
    }
    assert(text@.take(text@.len() as int) == text@);
    result
}

/// The text made of the characters from `from` up to, not including, `to`.
pub fn text_between(characters: &Vec<char>, from: usize, to: usize) -> (result: String)
    requires
        from <= to <= characters@.len(),
    ensures
        result@ == characters@.subrange(from as int, to as int),
{
    let mut result = String::new();
    let mut index: usize = from;
    while index < to
        invariant
            from <= index <= to <= characters@.len(),
            result@ == characters@.subrange(from as int, index as int),
        decreases to - index,
    {
        result.push(characters[index]);
        index += 1;
        assert(characters@.subrange(from as int, index as int) == characters@.subrange(
            from as int,
            index - 1,
        ).push(characters@[index - 1]));
    }
    result
}

/// An ASCII capital becomes its small letter; every other character stays.
pub open spec fn lower_character(character: char) -> char {
    if 'A' <= character && character <= 'Z' {
        ((character as u8) + 32) as char
    } else {
        character
    }
}

/// A text with its ASCII capitals made small.
pub open spec fn lower_text(text: Seq<char>) -> Seq<char> {
    text.map_values(|character: char| lower_character(character))
}

/// The characters of a text with its ASCII capitals made small.
pub fn lower_characters(text: &str) -> (result: Vec<char>)
    ensures
        result@ == lower_text(text@),
{
    let source = characters(text);
    let mut result: Vec<char> = Vec::new();
    let mut index: usize = 0;
    while index < source.len()
        invariant
            source@ == text@,
            index <= source.len(),
            result@ == lower_text(text@.take(index as int)),
        decreases source.len() - index,
    {
        let character = source[index];
        let small = if 'A' <= character && character <= 'Z' {
            ((character as u8) + 32) as char
        } else {
            character
        };
        result.push(small);
        index += 1;
        assert(text@.take(index as int) == text@.take(index - 1).push(character));
    }
    assert(text@.take(text@.len() as int) == text@);
    result
}

/// Whether `needle` stands in `text` from position `at` on.
pub open spec fn occurs_at(text: Seq<char>, needle: Seq<char>, at: int) -> bool {
    0 <= at && at + needle.len() <= text.len() && text.subrange(at, at + needle.len()) == needle
}

/// Whether `needle` stands anywhere in `text`.
pub open spec fn occurs_in(text: Seq<char>, needle: Seq<char>) -> bool {
    exists|at: int| #[trigger] occurs_at(text, needle, at)
}

/// Whether `needle` stands in `text` at `at` and at no earlier position.
pub open spec fn occurs_first_at(text: Seq<char>, needle: Seq<char>, at: int) -> bool {
    occurs_at(text, needle, at) && forall|earlier: int|
        earlier < at ==> !#[trigger] occurs_at(text, needle, earlier)
}

/// Tells whether `needle` stands in `text` from position `at` on.
pub fn stands_at(text: &Vec<char>, needle: &Vec<char>, at: usize) -> (result: bool)
    requires
        at + needle@.len() <= text@.len(),
    ensures
        result == occurs_at(text@, needle@, at as int),
{
    let length: usize = text.len();
    let mut index: usize = 0;
    while index < needle.len()
        invariant
            length == text@.len(),
            at + needle@.len() <= length,
            index <= needle@.len(),
            forall|earlier: int| 0 <= earlier < index ==> text@[at + earlier] == needle@[earlier],
        decreases needle@.len() - index,
    {
        if text[at + index] != needle[index] {
            assert(text@.subrange(at as int, at + needle@.len())[index as int]
                != needle@[index as int]);
            return false;
        }
        index += 1;
    }
    assert(text@.subrange(at as int, at + needle@.len()) =~= needle@);
    true
}

/// The first position at which `needle` stands in `text`.
pub fn find(text: &Vec<char>, needle: &Vec<char>) -> (result: Option<usize>)
    ensures
        result is Some <==> occurs_in(text@, needle@),
        result matches Some(at) ==> occurs_first_at(text@, needle@, at as int),
{
    if needle.len() > text.len() {
        return None;
    }
    let last: usize = text.len() - needle.len();
    let mut at: usize = 0;
    loop
        invariant
            last == text@.len() - needle@.len(),
            at <= last,
            forall|earlier: int| earlier < at ==> !#[trigger] occurs_at(text@, needle@, earlier),
        decreases last - at,
    {
        if stands_at(text, needle, at) {
            return Some(at);
        }
        if at == last {
            return None;
        }
        at += 1;
    }
}

/// The rest of a text behind its first `count` characters.
pub open spec fn text_behind(text: Seq<char>, count: usize) -> Seq<char> {
    text.skip(count as int)
}

/// Texts are ordered by their first differing character; a text comes before its extensions.
pub open spec fn text_order(left: Seq<char>, right: Seq<char>) -> Ordering
    decreases left.len(),
{
    if left.len() == 0 {
        if right.len() == 0 {
            Ordering::Equal
        } else {
            Ordering::Less
        }
    } else if right.len() == 0 {
        Ordering::Greater
    } else if left[0] < right[0] {
        Ordering::Less
    } else if left[0] > right[0] {
        Ordering::Greater
    } else {
        text_order(left.drop_first(), right.drop_first())
    }
}

/// Compares two texts character by character.
pub fn compare_text(left: &str, right: &str) -> (result: Ordering)
    ensures
        result == text_order(left@, right@),
{
    let left_characters = characters(left);
    let right_characters = characters(right);
    let mut index: usize = 0;
    assert(text_behind(left@, 0) == left@);
    assert(text_behind(right@, 0) == right@);
    while index < left_characters.len() && index < right_characters.len()
        invariant
            left_characters@ == left@,
            right_characters@ == right@,
            index <= left@.len(),
            index <= right@.len(),
            text_order(left@, right@) == text_order(
                text_behind(left@, index),
                text_behind(right@, index),
            ),
        decreases left@.len() - index,
    {
        if left_characters[index] < right_characters[index] {
            return Ordering::Less;
        }
        if left_characters[index] > right_characters[index] {
            return Ordering::Greater;
        }
        let ghost before = index;
        index += 1;
        assert(text_behind(left@, before).drop_first() == text_behind(left@, index));
        assert(text_behind(right@, before).drop_first() == text_behind(right@, index));
    }
    if index < right_characters.len() {
        Ordering::Less
    } else if index < left_characters.len() {
        Ordering::Greater
    } else {
        Ordering::Equal
    }
}

/// The opposite of an ordering.
pub open spec fn reversed(order: Ordering) -> Ordering {
    match order {
        Ordering::Less => Ordering::Greater,
        Ordering::Equal => Ordering::Equal,
        Ordering::Greater => Ordering::Less,
    }
}

/// Two texts compare as equal exactly where they are the same text.
pub proof fn text_order_equal_is_same(left: Seq<char>, right: Seq<char>)
    ensures
        text_order(left, right) == Ordering::Equal <==> left == right,
    decreases left.len(),
{
    if left.len() == 0 || right.len() == 0 {
        assert(left.len() == 0 && right.len() == 0 ==> left =~= right);
    } else {
        text_order_equal_is_same(left.drop_first(), right.drop_first());
        if left[0] == right[0] && left.drop_first() == right.drop_first() {
            assert(left =~= seq![left[0]] + left.drop_first());
            assert(right =~= seq![right[0]] + right.drop_first());
        }
    }
}

/// Exchanging the two texts reverses the comparison.
pub proof fn text_order_exchanges(left: Seq<char>, right: Seq<char>)
    ensures
        text_order(right, left) == reversed(text_order(left, right)),
    decreases left.len(),
{
    if left.len() > 0 && right.len() > 0 {
        text_order_exchanges(left.drop_first(), right.drop_first());
    }
}

/// The order of texts is transitive, and strict where one of its steps is.
pub proof fn text_order_chains(first: Seq<char>, second: Seq<char>, third: Seq<char>)
    requires
        text_order(first, second) != Ordering::Greater,
        text_order(second, third) != Ordering::Greater,
    ensures
        text_order(first, third) == Ordering::Equal ==> text_order(first, second)
            == Ordering::Equal && text_order(second, third) == Ordering::Equal,
        text_order(first, third) != Ordering::Greater,
    decreases first.len(),
{
    if first.len() > 0 && second.len() > 0 && third.len() > 0 && first[0] == second[0] && second[0]
        == third[0] {
        text_order_chains(first.drop_first(), second.drop_first(), third.drop_first());
    }
}

/// The character of a decimal digit.
pub open spec fn digit(value: int) -> char {
    (48 + value) as u8 as char
}

/// A number written in decimal digits, without leading zeros.
pub open spec fn decimal(number: nat) -> Seq<char>
    decreases number,
{
    if number < 10 {
        seq![digit(number as int)]
    } else {
        decimal(number / 10).push(digit((number % 10) as int))
    }
}

/// Writes a number in decimal digits.
pub fn decimal_text(number: u128) -> (result: String)
    ensures
        result@ == decimal(number as nat),
    decreases number,
{
    let mut result = if number < 10 {
        String::new()
    } else {
        decimal_text(number / 10)
    };
    result.push((48u8 + (number % 10) as u8) as char);
    result
}

/// As many spaces as `count`.
pub open spec fn spaces(count: int) -> Seq<char> {
    if count <= 0 {
        Seq::empty()
    } else {
        Seq::new(count as nat, |index: int| ' ')
    }
}

/// Writes `count` spaces.
pub fn spaces_text(count: usize) -> (result: String)
    ensures
        result@ == spaces(count as int),
{
    let mut result = String::new();
    let mut written: usize = 0;
    while written < count
        invariant
            written <= count,
            result@ == spaces(written as int),
        decreases count - written,
    {
        result.push(' ');
        written += 1;
        assert(spaces(written as int) =~= spaces(written - 1).push(' '));
    }
    result
}

/// A text with spaces before it up to `width` characters.
pub open spec fn padded_left(text: Seq<char>, width: int) -> Seq<char> {
    spaces(width - text.len()) + text
}

/// A text with spaces behind it up to `width` characters.
pub open spec fn padded_right(text: Seq<char>, width: int) -> Seq<char> {
    text + spaces(width - text.len())
}

/// Puts spaces before a text until it is `width` characters long.
pub fn pad_left(text: &str, width: usize) -> (result: String)
    ensures
        result@ == padded_left(text@, width as int),
{
    let length: usize = text.unicode_len();
    spaces_text(width.saturating_sub(length)).concat(text)
}

/// Puts spaces behind a text until it is `width` characters long.
pub fn pad_right(text: &str, width: usize) -> (result: String)
    ensures
        result@ == padded_right(text@, width as int),
{
    let length: usize = text.unicode_len();
    text.to_owned().concat(spaces_text(width.saturating_sub(length)).as_str())
}

} // verus!
