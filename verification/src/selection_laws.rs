//! What selecting means, and what is counted and added up.

use crate::entry::{EntryView, StatusView};
use crate::laws::{inverting_flips_each_row, selection_stays_scoped_to_visible_rows};
use crate::model::{selectable_paths, AppView};
use crate::order_laws::counted_size;
use crate::path::PathView;
use crate::totals::{effective_total, original_total, size_total};
use vstd::prelude::*;

verus! {

/// Whether an entry can be selected: its directory is there, and no removal of it runs.
pub open spec fn can_be_selected(entry: EntryView) -> bool {
    entry.delete_status is Ready || entry.delete_status is Failed
}

/// Whether a path is that of a row that can be selected.
pub open spec fn has_row(state: AppView, path: PathView) -> bool {
    exists|row: int|
        0 <= row < state.filtered_indices.len() && {
            let entry = state.entries[#[trigger] state.filtered_indices[row] as int];
            entry.target_path == path && can_be_selected(entry)
        }
}

proof fn row_paths_are_visible(entries: Seq<EntryView>, indices: Seq<usize>, path: PathView)
    ensures
        selectable_paths(entries, indices).contains(path) <==> exists|row: int|
            0 <= row < indices.len() && {
                let entry = entries[#[trigger] indices[row] as int];
                entry.target_path == path && can_be_selected(entry)
            },
    decreases indices.len(),
{
    if indices.len() > 0 {
        let shorter = indices.drop_last();
        let before = selectable_paths(entries, shorter);
        let all = selectable_paths(entries, indices);
        let last = entries[indices.last() as int];
        row_paths_are_visible(entries, shorter, path);
        assert(indices[indices.len() - 1] == indices.last());
        if all.contains(path) {
            let at = all.index_of(path);
            if at < before.len() {
                assert(before[at] == path);
                assert(before.contains(path));
                let row = choose|row: int|
                    0 <= row < shorter.len() && {
                        let entry = entries[#[trigger] shorter[row] as int];
                        entry.target_path == path && can_be_selected(entry)
                    };
                assert(indices[row] == shorter[row]);
            } else {
                assert(entries[indices[indices.len() - 1] as int].target_path == path);
            }
        }
        if exists|row: int|
            0 <= row < indices.len() && {
                let entry = entries[#[trigger] indices[row] as int];
                entry.target_path == path && can_be_selected(entry)
            } {
            let row = choose|row: int|
                0 <= row < indices.len() && {
                    let entry = entries[#[trigger] indices[row] as int];
                    entry.target_path == path && can_be_selected(entry)
                };
            if row < shorter.len() {
                assert(shorter[row] == indices[row]);
                let at = before.index_of(path);
                assert(all[at] == path);
            } else {
                assert(all[before.len() as int] == path);
            }
        }
    }
}

/// Toggling all rows selects every row that can be selected, unless all of them are selected
/// already: then it selects none of them. Whatever is no such row stays as it was, and so does
/// everything but the selection.
pub proof fn toggling_all_means_all_rows(state: AppView, path: PathView)
    ensures
        ({
            let after = state.with_all_toggled();
            let all = forall|other: PathView|
                #[trigger] has_row(state, other) ==> state.selected.contains(other);
            &&& has_row(state, path) ==> after.selected.contains(path) == !all
            &&& !has_row(state, path) ==> after.selected.contains(path) == state.selected.contains(
                path,
            )
            &&& after == (AppView { selected: after.selected, ..state })
        }),
{
    let visible = state.visible_paths();
    assert forall|other: PathView| visible.to_set().contains(other) <==> #[trigger] has_row(
        state,
        other,
    ) by {
        row_paths_are_visible(state.entries, state.filtered_indices, other);
        assert(visible.to_set().contains(other) <==> visible.contains(other));
    }
    let all = forall|other: PathView|
        #[trigger] has_row(state, other) ==> state.selected.contains(other);
    if all {
        assert forall|other: PathView| visible.to_set().contains(
            other,
        ) implies state.selected.contains(other) by {
            assert(has_row(state, other));
        }
        assert(visible.to_set().subset_of(state.selected));
    } else {
        let other = choose|other: PathView|
            #[trigger] has_row(state, other) && !state.selected.contains(other);
        assert(visible.to_set().contains(other));
    }
}

/// Inverting flips every row that can be selected; whatever is no such row stays as it was, and
/// so does everything but the selection.
pub proof fn inverting_means_each_row(state: AppView, path: PathView)
    requires
        state.wf(),
        state.distinct(),
    ensures
        ({
            let after = state.with_rows_inverted();
            &&& has_row(state, path) ==> after.selected.contains(path) != state.selected.contains(
                path,
            )
            &&& !has_row(state, path) ==> after.selected.contains(path) == state.selected.contains(
                path,
            )
            &&& after == (AppView { selected: after.selected, ..state })
        }),
{
    row_paths_are_visible(state.entries, state.filtered_indices, path);
    if state.visible_paths().contains(path) {
        inverting_flips_each_row(state, path);
    } else {
        selection_stays_scoped_to_visible_rows(state, path);
    }
}

/// Toggling one row flips the path under the cursor, where its entry can be selected, and no
/// other path. Everything but the selection stays as it was.
pub proof fn toggling_one_means_the_row_under_the_cursor(state: AppView, path: PathView)
    requires
        state.wf(),
    ensures
        ({
            let after = state.with_current_toggled();
            let entry = state.entries[state.filtered_indices[state.cursor as int] as int];
            let flipped = state.cursor < state.filtered_indices.len() && can_be_selected(entry)
                && entry.target_path == path;
            &&& flipped ==> after.selected.contains(path) != state.selected.contains(path)
            &&& !flipped ==> after.selected.contains(path) == state.selected.contains(path)
            &&& after == (AppView { selected: after.selected, ..state })
        }),
{
}

/// What is selected, gone, left or being removed is told of each entry by itself: one more entry
/// changes each of these lists by itself alone.
pub proof fn one_more_entry_counts_for_itself(state: AppView, entry: EntryView)
    ensures
        ({
            let more = AppView { entries: state.entries.push(entry), ..state };
            &&& more.selected_entries() == if can_be_selected(entry) && state.selected.contains(
                entry.target_path,
            ) {
                state.selected_entries().push(entry)
            } else {
                state.selected_entries()
            }
            &&& more.deleted_entries() == if entry.delete_status == StatusView::Deleted {
                state.deleted_entries().push(entry)
            } else {
                state.deleted_entries()
            }
            &&& more.remaining_entries() == if entry.delete_status == StatusView::Deleted {
                state.remaining_entries()
            } else {
                state.remaining_entries().push(entry)
            }
            &&& more.deleting_entries() == if entry.delete_status == StatusView::Deleting {
                state.deleting_entries().push(entry)
            } else {
                state.deleting_entries()
            }
        }),
{
    reveal(Seq::filter);
    let more = AppView { entries: state.entries.push(entry), ..state };
    assert(more.entries.drop_last() =~= state.entries);
    assert(more.entries.last() == entry);
    let chosen = |entry: EntryView|
        entry.selectable() && state.selected.contains(entry.target_path);
    let chosen_more = |entry: EntryView|
        entry.selectable() && more.selected.contains(entry.target_path);
    assert(chosen =~= chosen_more);
}

/// An empty list has nothing selected, gone, left or being removed.
pub proof fn empty_lists_count_nothing(state: AppView)
    requires
        state.entries.len() == 0,
    ensures
        state.selected_entries().len() == 0,
        state.deleted_entries().len() == 0,
        state.remaining_entries().len() == 0,
        state.deleting_entries().len() == 0,
        effective_total(state.entries) == 0,
        size_total(state.entries) == 0,
        original_total(state.entries) == 0,
        state.cleaned() is None,
{
    reveal(Seq::filter);
}

/// Each entry adds to the totals what it holds: to the bytes that are taken up nothing once it is
/// gone.
pub proof fn one_more_entry_adds_its_bytes(entries: Seq<EntryView>, entry: EntryView)
    ensures
        effective_total(entries.push(entry)) == effective_total(entries) + counted_size(entry),
        size_total(entries.push(entry)) == size_total(entries) + entry.size_bytes,
        original_total(entries.push(entry)) == original_total(entries) + entry.original_size_bytes,
{
    assert(entries.push(entry).drop_last() =~= entries);
}

/// What was cleaned is told as soon as one directory is gone: how many are, and what they took up
/// when they were found.
pub proof fn cleaned_tells_the_gone(state: AppView)
    requires
        state.wf(),
    ensures
        state.cleaned() is None <==> state.deleted_entries().len() == 0,
        state.cleaned() matches Some((count, bytes)) ==> count == state.deleted_entries().len()
            && bytes == original_total(state.deleted_entries()),
        state.cleaned() is None <==> forall|index: int|
            0 <= index < state.entries.len() ==> (#[trigger] state.entries[index]).delete_status
                != StatusView::Deleted,
{
    let gone = |entry: EntryView| entry.delete_status is Deleted;
    filtered_is_no_longer(state.entries, gone);
    crate::totals::totals_of_some(state.entries, gone);
}

proof fn filtered_is_no_longer(entries: Seq<EntryView>, chosen: spec_fn(EntryView) -> bool)
    ensures
        entries.filter(chosen).len() <= entries.len(),
        entries.filter(chosen).len() == 0 <==> forall|index: int|
            0 <= index < entries.len() ==> !chosen(#[trigger] entries[index]),
    decreases entries.len(),
{
    reveal(Seq::filter);
    if entries.len() > 0 {
        let shorter = entries.drop_last();
        filtered_is_no_longer(shorter, chosen);
        if entries.filter(chosen).len() == 0 {
            assert forall|index: int| 0 <= index < entries.len() implies !chosen(
                #[trigger] entries[index],
            ) by {
                if index < shorter.len() {
                    assert(shorter[index] == entries[index]);
                }
            }
        }
        if forall|index: int| 0 <= index < entries.len() ==> !chosen(#[trigger] entries[index]) {
            assert forall|index: int| 0 <= index < shorter.len() implies !chosen(
                #[trigger] shorter[index],
            ) by {
                assert(shorter[index] == entries[index]);
            }
            assert(!chosen(entries[entries.len() - 1]));
        }
    }
}

} // verus!
