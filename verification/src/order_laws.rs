//! What the order of entries and of texts means.

use crate::entry::{
    entry_order, sort_field_index, sort_fields, EntryView, SortField, SortOrder, StatusView,
};
use crate::model::AppView;
use crate::sort::sorting_sorts;
use crate::text::{text_order, text_order_equal_is_same, text_order_exchanges};
use std::cmp::Ordering;
use vstd::prelude::*;

verus! {

/// Of two texts that differ first in one character, the one with the smaller character there
/// comes first, whatever stands behind.
pub proof fn first_difference_decides(
    common: Seq<char>,
    smaller: char,
    larger: char,
    behind_smaller: Seq<char>,
    behind_larger: Seq<char>,
)
    requires
        smaller < larger,
    ensures
        text_order(
            common.push(smaller) + behind_smaller,
            common.push(larger) + behind_larger,
        ) == Ordering::Less,
        text_order(
            common.push(larger) + behind_larger,
            common.push(smaller) + behind_smaller,
        ) == Ordering::Greater,
    decreases common.len(),
{
    let left = common.push(smaller) + behind_smaller;
    let right = common.push(larger) + behind_larger;
    if common.len() > 0 {
        first_difference_decides(
            common.drop_first(),
            smaller,
            larger,
            behind_smaller,
            behind_larger,
        );
        assert(left.drop_first() =~= common.drop_first().push(smaller) + behind_smaller);
        assert(right.drop_first() =~= common.drop_first().push(larger) + behind_larger);
    }
}

/// A text comes before every longer text that begins with it.
pub proof fn beginnings_come_first(text: Seq<char>, character: char, behind: Seq<char>)
    ensures
        text_order(text, text.push(character) + behind) == Ordering::Less,
        text_order(text.push(character) + behind, text) == Ordering::Greater,
        text_order(text, text) == Ordering::Equal,
    decreases text.len(),
{
    let longer = text.push(character) + behind;
    text_order_equal_is_same(text, text);
    if text.len() > 0 {
        beginnings_come_first(text.drop_first(), character, behind);
        assert(longer.drop_first() =~= text.drop_first().push(character) + behind);
    }
}

/// What a directory counts for in the order by size: nothing once it is gone.
pub open spec fn counted_size(entry: EntryView) -> int {
    if entry.delete_status == StatusView::Deleted {
        0
    } else {
        entry.size_bytes as int
    }
}

/// Wherever two entries differ in the field that the list is sorted by, that field alone decides
/// which of them comes first.
pub proof fn sort_field_decides(left: EntryView, right: EntryView)
    ensures
        counted_size(left) < counted_size(right) ==> entry_order(
            left,
            right,
            SortField::Size,
            SortOrder::Asc,
        ) == Ordering::Less && entry_order(left, right, SortField::Size, SortOrder::Desc)
            == Ordering::Greater,
        left.display_name != right.display_name ==> entry_order(
            left,
            right,
            SortField::Name,
            SortOrder::Asc,
        ) == text_order(left.display_name, right.display_name) && entry_order(
            left,
            right,
            SortField::Name,
            SortOrder::Desc,
        ) == text_order(right.display_name, left.display_name),
        left.relative_path != right.relative_path ==> entry_order(
            left,
            right,
            SortField::Path,
            SortOrder::Asc,
        ) == text_order(left.relative_path, right.relative_path) && entry_order(
            left,
            right,
            SortField::Path,
            SortOrder::Desc,
        ) == text_order(right.relative_path, left.relative_path),
        left.modified_at.secs < right.modified_at.secs || (left.modified_at.secs
            == right.modified_at.secs && left.modified_at.nanos < right.modified_at.nanos)
            ==> entry_order(left, right, SortField::Modified, SortOrder::Asc) == Ordering::Less
            && entry_order(left, right, SortField::Modified, SortOrder::Desc) == Ordering::Greater,
{
    text_order_equal_is_same(left.display_name, right.display_name);
    text_order_equal_is_same(left.relative_path, right.relative_path);
    text_order_exchanges(left.display_name, right.display_name);
    text_order_exchanges(left.relative_path, right.relative_path);
}

/// Wherever two entries agree in the field that the list is sorted by, their names decide; where
/// that field is the name, their paths do.
pub proof fn ties_are_broken_by_name_or_path(left: EntryView, right: EntryView)
    ensures
        counted_size(left) == counted_size(right) ==> entry_order(
            left,
            right,
            SortField::Size,
            SortOrder::Asc,
        ) == text_order(left.display_name, right.display_name) && entry_order(
            left,
            right,
            SortField::Size,
            SortOrder::Desc,
        ) == text_order(right.display_name, left.display_name),
        left.display_name == right.display_name ==> entry_order(
            left,
            right,
            SortField::Name,
            SortOrder::Asc,
        ) == text_order(left.relative_path, right.relative_path) && entry_order(
            left,
            right,
            SortField::Name,
            SortOrder::Desc,
        ) == text_order(right.relative_path, left.relative_path),
        left.relative_path == right.relative_path ==> entry_order(
            left,
            right,
            SortField::Path,
            SortOrder::Asc,
        ) == text_order(left.display_name, right.display_name) && entry_order(
            left,
            right,
            SortField::Path,
            SortOrder::Desc,
        ) == text_order(right.display_name, left.display_name),
        left.modified_at == right.modified_at ==> entry_order(
            left,
            right,
            SortField::Modified,
            SortOrder::Asc,
        ) == text_order(left.display_name, right.display_name) && entry_order(
            left,
            right,
            SortField::Modified,
            SortOrder::Desc,
        ) == text_order(right.display_name, left.display_name),
{
    text_order_equal_is_same(left.display_name, right.display_name);
    text_order_equal_is_same(left.relative_path, right.relative_path);
    text_order_exchanges(left.display_name, right.display_name);
    text_order_exchanges(left.relative_path, right.relative_path);
}

/// In a list sorted by size from the largest on, no directory stands before a larger one; by last
/// change from the latest on, none before one that was changed later; by name or by path in
/// alphabetical order, none before one whose name or path is smaller as text. The other direction
/// turns this round.
pub proof fn sorted_lists_rise_or_fall(state: AppView, left: int, right: int)
    requires
        0 <= left < right < state.recomputed().entries.len(),
    ensures
        ({
            let first = state.recomputed().entries[left];
            let second = state.recomputed().entries[right];
            match (state.sort_field, state.sort_order) {
                (SortField::Size, SortOrder::Desc) => counted_size(first) >= counted_size(second),
                (SortField::Size, SortOrder::Asc) => counted_size(first) <= counted_size(second),
                (SortField::Modified, SortOrder::Desc) => first.modified_at.secs
                    > second.modified_at.secs || (first.modified_at.secs == second.modified_at.secs
                    && first.modified_at.nanos >= second.modified_at.nanos),
                (SortField::Modified, SortOrder::Asc) => first.modified_at.secs
                    < second.modified_at.secs || (first.modified_at.secs == second.modified_at.secs
                    && first.modified_at.nanos <= second.modified_at.nanos),
                (SortField::Name, SortOrder::Asc) => text_order(
                    first.display_name,
                    second.display_name,
                ) != Ordering::Greater,
                (SortField::Name, SortOrder::Desc) => text_order(
                    first.display_name,
                    second.display_name,
                ) != Ordering::Less,
                (SortField::Path, SortOrder::Asc) => text_order(
                    first.relative_path,
                    second.relative_path,
                ) != Ordering::Greater,
                (SortField::Path, SortOrder::Desc) => text_order(
                    first.relative_path,
                    second.relative_path,
                ) != Ordering::Less,
            }
        }),
{
    let first = state.recomputed().entries[left];
    let second = state.recomputed().entries[right];
    sorting_sorts(state.entries, state.sort_field, state.sort_order);
    sort_field_decides(first, second);
    sort_field_decides(second, first);
    ties_are_broken_by_name_or_path(first, second);
    text_order_exchanges(first.display_name, second.display_name);
    text_order_exchanges(first.relative_path, second.relative_path);
    text_order_equal_is_same(first.display_name, second.display_name);
    text_order_equal_is_same(first.relative_path, second.relative_path);
}

/// Each field is offered once, and stands at its own place.
pub proof fn each_field_has_its_place(field: SortField, other: SortField)
    ensures
        sort_fields().len() == 4,
        sort_fields()[sort_field_index(field) as int] == field,
        sort_field_index(field) == sort_field_index(other) ==> field == other,
{
}

/// Choosing the field that the list is sorted by turns the direction round. Choosing another one
/// sorts by it: sizes and changes from the largest and the latest on, names and paths in
/// alphabetical order.
pub proof fn chosen_field_sorts(state: AppView, field: SortField)
    ensures
        state.sorted_by(field).sort_field == field,
        state.sort_field == field ==> state.sorted_by(field).sort_order != state.sort_order,
        state.sort_field != field ==> (state.sorted_by(field).sort_order == SortOrder::Desc <==> (
        field == SortField::Size || field == SortField::Modified)),
        state.sorted_by(field).entries.to_multiset() == state.entries.to_multiset(),
        state.sorted_by(field).search_query == state.search_query,
        state.sorted_by(field).selected == state.selected,
{
    let turned = AppView { sort_order: crate::entry::other_order(state.sort_order), ..state };
    let other = AppView {
        sort_field: field,
        sort_order: crate::entry::default_sort_order(field),
        ..state
    };
    crate::sort::sorting_keeps_entries(state.entries, turned.sort_field, turned.sort_order);
    crate::sort::sorting_keeps_entries(state.entries, other.sort_field, other.sort_order);
}

} // verus!
