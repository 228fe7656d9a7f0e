//! What a search shows.

use crate::entry::{matches_query, EntryView};
use crate::pieces::{first_place, highlighted, marked};
use crate::style::{bold_style, plain_style, Color, LineView};
use crate::text::{lower_character, lower_text, occurs_at, occurs_first_at, occurs_in};
use vstd::prelude::*;

verus! {

/// Whether two characters are the same, but for one being the ASCII capital of the other.
pub open spec fn same_letter(left: char, right: char) -> bool {
    ||| left == right
    ||| 'A' <= left <= 'Z' && left as int + 32 == right as int
    ||| 'A' <= right <= 'Z' && right as int + 32 == left as int
}

/// Whether two texts are the same, ASCII capitals or not.
pub open spec fn same_but_for_capitals(left: Seq<char>, right: Seq<char>) -> bool {
    left.len() == right.len() && forall|index: int|
        0 <= index < left.len() ==> same_letter(#[trigger] left[index], right[index])
}

/// Whether a text holds a query from a position on, ASCII capitals or not.
pub open spec fn holds_at(text: Seq<char>, query: Seq<char>, at: int) -> bool {
    0 <= at && at + query.len() <= text.len() && same_but_for_capitals(
        text.subrange(at, at + query.len()),
        query,
    )
}

proof fn lower_letters_agree(left: char, right: char)
    ensures
        lower_character(left) == lower_character(right) <==> same_letter(left, right),
{
    assert('A' as int == 65 && 'Z' as int == 90);
}

proof fn lower_texts_agree(left: Seq<char>, right: Seq<char>)
    ensures
        lower_text(left) == lower_text(right) <==> same_but_for_capitals(left, right),
{
    let small_left = lower_text(left);
    let small_right = lower_text(right);
    if same_but_for_capitals(left, right) {
        assert forall|index: int| 0 <= index < left.len() implies small_left[index]
            == small_right[index] by {
            lower_letters_agree(left[index], right[index]);
            assert(same_letter(left[index], right[index]));
        }
        assert(small_left =~= small_right);
    }
    if small_left == small_right {
        assert(left.len() == small_left.len());
        assert(right.len() == small_right.len());
        assert forall|index: int| 0 <= index < left.len() implies same_letter(
            #[trigger] left[index],
            right[index],
        ) by {
            lower_letters_agree(left[index], right[index]);
            assert(small_left[index] == small_right[index]);
        }
    }
}

proof fn occurring_is_holding(text: Seq<char>, query: Seq<char>, at: int)
    ensures
        occurs_at(lower_text(text), lower_text(query), at) <==> holds_at(text, query, at),
{
    if 0 <= at && at + query.len() <= text.len() {
        assert(lower_text(text).subrange(at, at + query.len()) =~= lower_text(
            text.subrange(at, at + query.len()),
        ));
        lower_texts_agree(text.subrange(at, at + query.len()), query);
    }
}

/// An entry whose name holds the query is shown, and so is one whose path does: whatever stands
/// before and behind, ASCII capitals or not.
pub proof fn holding_the_query_is_enough(
    entry: EntryView,
    before: Seq<char>,
    held: Seq<char>,
    behind: Seq<char>,
    query: Seq<char>,
)
    requires
        same_but_for_capitals(held, query),
    ensures
        entry.display_name == before + held + behind ==> matches_query(entry, query),
        entry.relative_path == before + held + behind ==> matches_query(entry, query),
        query.len() == 0 ==> matches_query(entry, query),
{
    let text = before + held + behind;
    let at = before.len() as int;
    assert(text.subrange(at, at + query.len()) =~= held);
    assert(holds_at(text, query, at));
    occurring_is_holding(text, query, at);
    assert(occurs_at(lower_text(text), lower_text(query), at));
    assert(occurs_in(lower_text(text), lower_text(query)));
}

/// No entry is shown unless its name or its path holds the query.
pub proof fn shown_entries_hold_the_query(entry: EntryView, query: Seq<char>)
    requires
        matches_query(entry, query),
    ensures
        query.len() == 0 || exists|at: int|
            #![trigger holds_at(entry.display_name, query, at)]
            #![trigger holds_at(entry.relative_path, query, at)]
            holds_at(entry.display_name, query, at) || holds_at(entry.relative_path, query, at),
{
    if query.len() > 0 {
        if occurs_in(lower_text(entry.display_name), lower_text(query)) {
            let at = choose|at: int|
                occurs_at(lower_text(entry.display_name), lower_text(query), at);
            occurring_is_holding(entry.display_name, query, at);
            assert(holds_at(entry.display_name, query, at));
        } else {
            let at = choose|at: int|
                occurs_at(lower_text(entry.relative_path), lower_text(query), at);
            occurring_is_holding(entry.relative_path, query, at);
            assert(holds_at(entry.relative_path, query, at));
        }
    }
}

/// What is found is marked where it first stands: the text before it and the text behind it stay
/// plain, and what is marked is the text itself, not the query.
pub proof fn first_find_is_marked(text: Seq<char>, query: Seq<char>, at: int)
    requires
        query.len() > 0,
        holds_at(text, query, at),
        forall|earlier: int| earlier < at ==> !#[trigger] holds_at(text, query, earlier),
    ensures
        highlighted(text, query) matches LineView::Spans(spans) && spans.len() == 3
            && spans[0].text == text.take(at) && spans[1].text == text.subrange(
            at,
            at + query.len(),
        ) && spans[2].text == text.skip(at + query.len()) && spans[0].style == plain_style()
            && spans[1].style == bold_style(Color::AccentPrimary) && spans[2].style
            == plain_style(),
{
    occurring_is_holding(text, query, at);
    assert forall|earlier: int| earlier < at implies !#[trigger] occurs_at(
        lower_text(text),
        lower_text(query),
        earlier,
    ) by {
        occurring_is_holding(text, query, earlier);
        assert(!holds_at(text, query, earlier));
    }
    assert(occurs_first_at(lower_text(text), lower_text(query), at));
    assert(occurs_in(lower_text(text), lower_text(query)));
    let place = first_place(lower_text(text), lower_text(query));
    assert(occurs_first_at(lower_text(text), lower_text(query), place));
    assert(place == at);
}

/// Where nothing is found, or there is no query, the text is shown plain.
pub proof fn nothing_found_is_nothing_marked(text: Seq<char>, query: Seq<char>)
    requires
        query.len() == 0 || forall|at: int| !#[trigger] holds_at(text, query, at),
    ensures
        highlighted(text, query) == LineView::Plain(text),
{
    if query.len() > 0 && occurs_in(lower_text(text), lower_text(query)) {
        let at = choose|at: int| occurs_at(lower_text(text), lower_text(query), at);
        occurring_is_holding(text, query, at);
        assert(holds_at(text, query, at));
    }
}

} // verus!
