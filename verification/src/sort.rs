//! Sorting the list of entries.

use crate::entry::{
    compare_entries, entry_le, entry_order_chains, entry_order_total, entry_views, EntryView,
    SortField, SortOrder, TargetEntry,
};
use std::cmp::Ordering;
use vstd::prelude::*;

verus! {

/// A sorted list with one more entry, which stands behind those that may stand before it.
pub open spec fn inserted(
    sorted: Seq<EntryView>,
    entry: EntryView,
    field: SortField,
    order: SortOrder,
) -> Seq<EntryView>
    decreases sorted.len(),
{
    if sorted.len() == 0 || entry_le(sorted.last(), entry, field, order) {
        sorted.push(entry)
    } else {
        inserted(sorted.drop_last(), entry, field, order).push(sorted.last())
    }
}

/// The entries of a list in sorted order; entries that compare as equal keep their order.
pub open spec fn sorted_entries(
    entries: Seq<EntryView>,
    field: SortField,
    order: SortOrder,
) -> Seq<EntryView>
    decreases entries.len(),
{
    if entries.len() == 0 {
        Seq::empty()
    } else {
        inserted(
            sorted_entries(entries.drop_last(), field, order),
            entries.last(),
            field,
            order,
        )
    }
}

/// Whether every entry of a list may stand before all those behind it.
pub open spec fn is_sorted(entries: Seq<EntryView>, field: SortField, order: SortOrder) -> bool {
    forall|left: int, right: int|
        0 <= left < right < entries.len() ==> entry_le(
            #[trigger] entries[left],
            #[trigger] entries[right],
            field,
            order,
        )
}

/// Two sorted lists made one, the entries of the first before equal ones of the second.
spec fn merged(
    left: Seq<EntryView>,
    right: Seq<EntryView>,
    field: SortField,
    order: SortOrder,
) -> Seq<EntryView>
    decreases left.len() + right.len(),
{
    if left.len() == 0 {
        right
    } else if right.len() == 0 {
        left
    } else if entry_le(left.last(), right.last(), field, order) {
        merged(left, right.drop_last(), field, order).push(right.last())
    } else {
        merged(left.drop_last(), right, field, order).push(left.last())
    }
}

proof fn inserted_into_merged(
    left: Seq<EntryView>,
    right: Seq<EntryView>,
    entry: EntryView,
    field: SortField,
    order: SortOrder,
)
    ensures
        inserted(merged(left, right, field, order), entry, field, order) == merged(
            left,
            inserted(right, entry, field, order),
            field,
            order,
        ),
    decreases left.len() + right.len(),
{
    let both = merged(left, right, field, order);
    let more = inserted(right, entry, field, order);
    if left.len() == 0 {
    } else if right.len() == 0 {
        assert(more =~= seq![entry]);
        assert(more.drop_last() =~= right);
        assert(more.last() == entry);
        if entry_le(left.last(), entry, field, order) {
            assert(merged(left, right, field, order) == left);
        } else {
            inserted_into_merged(left.drop_last(), right, entry, field, order);
            assert(merged(left.drop_last(), right, field, order) =~= left.drop_last());
        }
    } else if entry_le(left.last(), right.last(), field, order) {
        assert(both.drop_last() =~= merged(left, right.drop_last(), field, order));
        if entry_le(right.last(), entry, field, order) {
            entry_order_chains(left.last(), right.last(), entry, field, order);
            assert(more.drop_last() =~= right);
        } else {
            inserted_into_merged(left, right.drop_last(), entry, field, order);
            assert(more.drop_last() =~= inserted(right.drop_last(), entry, field, order));
        }
    } else {
        assert(both.drop_last() =~= merged(left.drop_last(), right, field, order));
        entry_order_total(left.last(), right.last(), field, order);
        if entry_le(left.last(), entry, field, order) {
            entry_order_chains(right.last(), left.last(), entry, field, order);
            assert(more.drop_last() =~= right);
        } else {
            inserted_into_merged(left.drop_last(), right, entry, field, order);
            assert(more.last() == entry || more.last() == right.last());
        }
    }
}

proof fn sorted_of_parts(
    left: Seq<EntryView>,
    right: Seq<EntryView>,
    field: SortField,
    order: SortOrder,
)
    ensures
        sorted_entries(left + right, field, order) == merged(
            sorted_entries(left, field, order),
            sorted_entries(right, field, order),
            field,
            order,
        ),
    decreases right.len(),
{
    if right.len() == 0 {
        assert(left + right =~= left);
    } else {
        assert((left + right).drop_last() =~= left + right.drop_last());
        sorted_of_parts(left, right.drop_last(), field, order);
        inserted_into_merged(
            sorted_entries(left, field, order),
            sorted_entries(right.drop_last(), field, order),
            right.last(),
            field,
            order,
        );
    }
}

/// Turns a list round.
fn turn_round(mut entries: Vec<TargetEntry>) -> (result: Vec<TargetEntry>)
    ensures
        entry_views(result@) == entry_views(entries@).reverse(),
{
    let ghost all = entry_views(entries@);
    let mut result: Vec<TargetEntry> = Vec::new();
    while entries.len() > 0
        invariant
            entries@.len() + result@.len() == all.len(),
            entry_views(entries@) == all.take(entries@.len() as int),
            entry_views(result@) == all.skip(entries@.len() as int).reverse(),
        decreases entries@.len(),
    {
        let ghost before = entries@;
        let ghost written = entry_views(result@);
        if let Some(entry) = entries.pop() {
            result.push(entry);
            assert(entry_views(result@) =~= written.push(entry@));
            assert(entry_views(before)[entries@.len() as int] == entry@);
            assert(entry_views(entries@) =~= all.take(entries@.len() as int));
            assert(entry_views(result@) =~= all.skip(entries@.len() as int).reverse());
        }
    }
    assert(all.skip(0) =~= all);
    result
}

/// Makes two sorted lists one.
fn merge(
    mut left: Vec<TargetEntry>,
    mut right: Vec<TargetEntry>,
    field: SortField,
    order: SortOrder,
) -> (result: Vec<TargetEntry>)
    ensures
        entry_views(result@) == merged(entry_views(left@), entry_views(right@), field, order),
{
    let ghost whole = merged(entry_views(left@), entry_views(right@), field, order);
    let mut behind: Vec<TargetEntry> = Vec::new();
    assert(entry_views(behind@).reverse() =~= Seq::<EntryView>::empty());
    while left.len() > 0 && right.len() > 0
        invariant
            whole == merged(entry_views(left@), entry_views(right@), field, order) + entry_views(
                behind@,
            ).reverse(),
        decreases left@.len() + right@.len(),
    {
        let ghost left_before = entry_views(left@);
        let ghost right_before = entry_views(right@);
        let ghost behind_before = entry_views(behind@);
        let take_right = match compare_entries(
            &left[left.len() - 1],
            &right[right.len() - 1],
            field,
            order,
        ) {
            Ordering::Greater => false,
            _ => true,
        };
        assert(left_before.last() == left@.last()@);
        assert(right_before.last() == right@.last()@);
        let taken = if take_right {
            right.pop()
        } else {
            left.pop()
        };
        if let Some(entry) = taken {
            behind.push(entry);
            assert(entry_views(behind@).reverse() =~= seq![entry@] + behind_before.reverse());
            assert(take_right ==> entry_views(right@) =~= right_before.drop_last());
            assert(!take_right ==> entry_views(left@) =~= left_before.drop_last());
            assert(whole =~= merged(entry_views(left@), entry_views(right@), field, order)
                + entry_views(behind@).reverse());
        }
    }
    let mut tail = turn_round(behind);
    let ghost front = merged(entry_views(left@), entry_views(right@), field, order);
    let mut result = left;
    result.append(&mut right);
    assert(entry_views(result@) =~= front);
    result.append(&mut tail);
    assert(entry_views(result@) =~= whole);
    result
}

/// Sorts a list of entries; entries that compare as equal keep their order.
pub fn sort_entries(
    mut entries: Vec<TargetEntry>,
    field: SortField,
    order: SortOrder,
) -> (result: Vec<TargetEntry>)
    ensures
        entry_views(result@) == sorted_entries(entry_views(entries@), field, order),
    decreases entries@.len(),
{
    let ghost all = entry_views(entries@);
    if entries.len() < 2 {
        proof {
            reveal_with_fuel(sorted_entries, 3);
            assert(sorted_entries(all, field, order) =~= all);
        }
        return entries;
    }
    let rest = entries.split_off(entries.len() / 2);
    proof {
        assert(entry_views(entries@) + entry_views(rest@) =~= all);
        sorted_of_parts(entry_views(entries@), entry_views(rest@), field, order);
    }
    let left = sort_entries(entries, field, order);
    let right = sort_entries(rest, field, order);
    merge(left, right, field, order)
}

proof fn inserted_members(
    sorted: Seq<EntryView>,
    entry: EntryView,
    field: SortField,
    order: SortOrder,
)
    ensures
        inserted(sorted, entry, field, order).len() == sorted.len() + 1,
        inserted(sorted, entry, field, order).to_multiset() == sorted.to_multiset().insert(entry),
        forall|index: int|
            0 <= index <= sorted.len() ==> (#[trigger] inserted(sorted, entry, field, order)[index]
                == entry || sorted.contains(inserted(sorted, entry, field, order)[index])),
    decreases sorted.len(),
{
    broadcast use vstd::seq_lib::group_to_multiset_ensures;

    let result = inserted(sorted, entry, field, order);
    if sorted.len() == 0 || entry_le(sorted.last(), entry, field, order) {
        assert forall|index: int| 0 <= index <= sorted.len() implies (#[trigger] result[index]
            == entry || sorted.contains(result[index])) by {
            if index < sorted.len() {
                assert(sorted[index] == result[index]);
            }
        }
    } else {
        let shorter = sorted.drop_last();
        inserted_members(shorter, entry, field, order);
        assert(sorted =~= shorter.push(sorted.last()));
        assert forall|index: int| 0 <= index <= sorted.len() implies (#[trigger] result[index]
            == entry || sorted.contains(result[index])) by {
            if index < sorted.len() {
                assert(result[index] == inserted(shorter, entry, field, order)[index]);
                if shorter.contains(result[index]) {
                    let at = shorter.index_of(result[index]);
                    assert(sorted[at] == result[index]);
                }
            } else {
                assert(sorted[sorted.len() - 1] == result[index]);
            }
        }
        assert(result.to_multiset() =~= sorted.to_multiset().insert(entry));
    }
}

proof fn inserted_keeps_sorted(
    sorted: Seq<EntryView>,
    entry: EntryView,
    field: SortField,
    order: SortOrder,
)
    requires
        is_sorted(sorted, field, order),
    ensures
        is_sorted(inserted(sorted, entry, field, order), field, order),
    decreases sorted.len(),
{
    let result = inserted(sorted, entry, field, order);
    if sorted.len() == 0 || entry_le(sorted.last(), entry, field, order) {
        assert forall|left: int, right: int| 0 <= left < right < result.len() implies entry_le(
            #[trigger] result[left],
            #[trigger] result[right],
            field,
            order,
        ) by {
            if right == sorted.len() && left < sorted.len() - 1 {
                assert(entry_le(sorted[left], sorted[sorted.len() - 1], field, order));
                entry_order_chains(sorted[left], sorted.last(), entry, field, order);
            }
        }
    } else {
        let shorter = sorted.drop_last();
        inserted_keeps_sorted(shorter, entry, field, order);
        inserted_members(shorter, entry, field, order);
        entry_order_total(sorted.last(), entry, field, order);
        assert forall|left: int, right: int| 0 <= left < right < result.len() implies entry_le(
            #[trigger] result[left],
            #[trigger] result[right],
            field,
            order,
        ) by {
            if right == result.len() - 1 {
                assert(result[left] == inserted(shorter, entry, field, order)[left]);
                if shorter.contains(result[left]) {
                    let at = shorter.index_of(result[left]);
                    assert(entry_le(sorted[at], sorted[sorted.len() - 1], field, order));
                }
            } else {
                assert(result[left] == inserted(shorter, entry, field, order)[left]);
                assert(result[right] == inserted(shorter, entry, field, order)[right]);
            }
        }
    }
}

/// Sorting leaves every entry behind those that may stand before it.
pub proof fn sorting_sorts(entries: Seq<EntryView>, field: SortField, order: SortOrder)
    ensures
        is_sorted(sorted_entries(entries, field, order), field, order),
    decreases entries.len(),
{
    if entries.len() > 0 {
        sorting_sorts(entries.drop_last(), field, order);
        inserted_keeps_sorted(
            sorted_entries(entries.drop_last(), field, order),
            entries.last(),
            field,
            order,
        );
    }
}

/// Sorting neither loses nor adds an entry.
pub proof fn sorting_keeps_entries(entries: Seq<EntryView>, field: SortField, order: SortOrder)
    ensures
        sorted_entries(entries, field, order).len() == entries.len(),
        sorted_entries(entries, field, order).to_multiset() == entries.to_multiset(),
    decreases entries.len(),
{
    broadcast use vstd::seq_lib::group_to_multiset_ensures;

    if entries.len() > 0 {
        sorting_keeps_entries(entries.drop_last(), field, order);
        inserted_members(
            sorted_entries(entries.drop_last(), field, order),
            entries.last(),
            field,
            order,
        );
        assert(entries =~= entries.drop_last().push(entries.last()));
    }
}

/// The entries of a list that compare as equal to a given one.
pub open spec fn equals_of(
    entries: Seq<EntryView>,
    entry: EntryView,
    field: SortField,
    order: SortOrder,
) -> Seq<EntryView> {
    entries.filter(
        |other: EntryView|
            entry_le(other, entry, field, order) && entry_le(entry, other, field, order),
    )
}

proof fn inserted_keeps_equals(
    sorted: Seq<EntryView>,
    entry: EntryView,
    probe: EntryView,
    field: SortField,
    order: SortOrder,
)
    ensures
        equals_of(inserted(sorted, entry, field, order), probe, field, order) == equals_of(
            sorted.push(entry),
            probe,
            field,
            order,
        ),
    decreases sorted.len(),
{
    reveal(Seq::filter);
    assert(sorted.push(entry).drop_last() =~= sorted);
    if sorted.len() > 0 && !entry_le(sorted.last(), entry, field, order) {
        let shorter = sorted.drop_last();
        let rest = inserted(shorter, entry, field, order);
        inserted_keeps_equals(shorter, entry, probe, field, order);
        assert(rest.push(sorted.last()).drop_last() =~= rest);
        assert(shorter.push(entry).drop_last() =~= shorter);
        let is_equal = |other: EntryView|
            entry_le(other, probe, field, order) && entry_le(probe, other, field, order);
        assert(rest.push(sorted.last()).filter(is_equal) == if is_equal(sorted.last()) {
            rest.filter(is_equal).push(sorted.last())
        } else {
            rest.filter(is_equal)
        });
        assert(sorted.filter(is_equal) == if is_equal(sorted.last()) {
            shorter.filter(is_equal).push(sorted.last())
        } else {
            shorter.filter(is_equal)
        });
        if entry_le(entry, probe, field, order) && entry_le(probe, entry, field, order)
            && entry_le(sorted.last(), probe, field, order) && entry_le(
            probe,
            sorted.last(),
            field,
            order,
        ) {
            entry_order_chains(sorted.last(), probe, entry, field, order);
        }
    }
}

/// Sorting keeps the order of entries that compare as equal.
pub proof fn sorting_is_stable(
    entries: Seq<EntryView>,
    probe: EntryView,
    field: SortField,
    order: SortOrder,
)
    ensures
        equals_of(sorted_entries(entries, field, order), probe, field, order) == equals_of(
            entries,
            probe,
            field,
            order,
        ),
    decreases entries.len(),
{
    if entries.len() > 0 {
        let shorter = entries.drop_last();
        let rest = sorted_entries(shorter, field, order);
        sorting_is_stable(shorter, probe, field, order);
        inserted_keeps_equals(rest, entries.last(), probe, field, order);
        reveal(Seq::filter);
        assert(rest.push(entries.last()).drop_last() =~= rest);
    }
}

/// A list that is sorted already stays as it is.
pub proof fn sorting_leaves_sorted(entries: Seq<EntryView>, field: SortField, order: SortOrder)
    requires
        is_sorted(entries, field, order),
    ensures
        sorted_entries(entries, field, order) == entries,
    decreases entries.len(),
{
    if entries.len() > 0 {
        let shorter = entries.drop_last();
        assert(is_sorted(shorter, field, order));
        sorting_leaves_sorted(shorter, field, order);
        if shorter.len() > 0 {
            assert(entry_le(
                entries[entries.len() - 2],
                entries[entries.len() - 1],
                field,
                order,
            ));
        }
        assert(entries =~= shorter.push(entries.last()));
    } else {
        assert(entries =~= Seq::<EntryView>::empty());
    }
}

} // verus!
