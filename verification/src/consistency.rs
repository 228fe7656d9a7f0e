//! What every step of the program keeps.

use crate::entry::{matches_query, EntryView, SortField, SortOrder, StatusView};
use crate::key::KeyEvent;
use crate::message::MessageView;
use crate::model::{index_of_path, matching_indices, AppMode, AppView};
use crate::path::PathView;
use crate::sort::{inserted, sorted_entries, sorting_keeps_entries};
use crate::totals::{effective_total, original_total, size_total, totals_update};
use vstd::prelude::*;

verus! {

/// The rows of a search stand in rising order, and are exactly the entries that match.
pub proof fn rows_are_matches(entries: Seq<EntryView>, query: Seq<char>, count: nat)
    requires
        count <= entries.len() <= usize::MAX,
    ensures
        matching_indices(entries, query, count).len() <= count,
        forall|row: int|
            0 <= row < matching_indices(entries, query, count).len() ==> {
                let index = #[trigger] matching_indices(entries, query, count)[row];
                index < count && matches_query(entries[index as int], query)
            },
        forall|left: int, right: int|
            0 <= left < right < matching_indices(entries, query, count).len()
                ==> #[trigger] matching_indices(entries, query, count)[left]
                < #[trigger] matching_indices(entries, query, count)[right],
        forall|index: int|
            0 <= index < count && #[trigger] matches_query(entries[index], query)
                ==> matching_indices(entries, query, count).contains(index as usize),
    decreases count,
{
    if count > 0 {
        let shorter = (count - 1) as nat;
        let before = matching_indices(entries, query, shorter);
        let rows = matching_indices(entries, query, count);
        rows_are_matches(entries, query, shorter);
        assert forall|index: int|
            0 <= index < count && #[trigger] matches_query(
                entries[index],
                query,
            ) implies rows.contains(index as usize) by {
            if index < shorter {
                let at = before.index_of(index as usize);
                assert(rows[at] == index as usize);
            } else {
                assert(rows[before.len() as int] == index as usize);
            }
        }
    }
}

/// The position of a path in a list is that of the first entry with the path.
pub proof fn index_of_path_is_first(entries: Seq<EntryView>, path: PathView)
    ensures
        0 <= index_of_path(entries, path) <= entries.len(),
        index_of_path(entries, path) < entries.len() ==> entries[index_of_path(
            entries,
            path,
        )].target_path == path,
        forall|index: int|
            0 <= index < index_of_path(entries, path) ==> (#[trigger] entries[index]).target_path
                != path,
    decreases entries.len(),
{
    if entries.len() > 0 && entries[0].target_path != path {
        index_of_path_is_first(entries.drop_first(), path);
        assert forall|index: int| 0 <= index < index_of_path(entries, path) implies (
        #[trigger] entries[index]).target_path != path by {
            if index > 0 {
                assert(entries.drop_first()[index - 1] == entries[index]);
            }
        }
    }
}

proof fn totals_of_inserted(
    sorted: Seq<EntryView>,
    entry: EntryView,
    field: SortField,
    order: SortOrder,
)
    ensures
        size_total(inserted(sorted, entry, field, order)) == size_total(sorted) + entry.size_bytes,
        original_total(inserted(sorted, entry, field, order)) == original_total(sorted)
            + entry.original_size_bytes,
        effective_total(inserted(sorted, entry, field, order)) == effective_total(sorted)
            + entry.effective_size(),
    decreases sorted.len(),
{
    let result = inserted(sorted, entry, field, order);
    if sorted.len() == 0 || crate::entry::entry_le(sorted.last(), entry, field, order) {
        assert(result.drop_last() =~= sorted);
    } else {
        totals_of_inserted(sorted.drop_last(), entry, field, order);
        assert(result.drop_last() =~= inserted(sorted.drop_last(), entry, field, order));
    }
}

/// Sorting keeps the totals.
pub proof fn sorting_keeps_totals(entries: Seq<EntryView>, field: SortField, order: SortOrder)
    ensures
        size_total(sorted_entries(entries, field, order)) == size_total(entries),
        original_total(sorted_entries(entries, field, order)) == original_total(entries),
        effective_total(sorted_entries(entries, field, order)) == effective_total(entries),
    decreases entries.len(),
{
    if entries.len() > 0 {
        sorting_keeps_totals(entries.drop_last(), field, order);
        totals_of_inserted(
            sorted_entries(entries.drop_last(), field, order),
            entries.last(),
            field,
            order,
        );
    }
}

/// Sorting and searching again leaves the cursor on a row, whatever the rows were before.
pub proof fn recomputed_keeps_wf(state: AppView)
    requires
        state.listable(),
    ensures
        state.recomputed().wf(),
{
    let entries = sorted_entries(state.entries, state.sort_field, state.sort_order);
    sorting_keeps_entries(state.entries, state.sort_field, state.sort_order);
    sorting_keeps_totals(state.entries, state.sort_field, state.sort_order);
    rows_are_matches(entries, state.search_query, entries.len());
}

/// A report keeps what every step keeps.
pub proof fn after_message_keeps_wf(state: AppView, message: MessageView)
    requires
        state.wf(),
        message.fits(),
        message matches MessageView::ScanComplete { entries, .. } ==> entries.len() <= usize::MAX,
    ensures
        state.after_message(message).wf(),
{
    match message {
        MessageView::ScanProgress { .. } => {},
        MessageView::ScanComplete { entries, warnings, elapsed } => {
            let known = entries.map_values(|entry: EntryView| entry.target_path).to_set();
            let filled = AppView {
                entries,
                scan_summary: crate::model::SummaryView {
                    discovered: entries.len() as usize,
                    total_bytes: size_total(entries) as u64,
                    current_path: None,
                    elapsed,
                },
                scan_warnings: warnings,
                selected: state.selected.intersect(known),
                ..state
            };
            recomputed_keeps_wf(filled);
        },
        MessageView::DeleteProgress { path, status } => {
            let at = index_of_path(state.entries, path);
            index_of_path_is_first(state.entries, path);
            if at < state.entries.len() {
                let size_bytes = if status is Deleted {
                    0
                } else {
                    state.entries[at].size_bytes
                };
                totals_update(
                    state.entries,
                    at,
                    EntryView { size_bytes, delete_status: status, ..state.entries[at] },
                );
            }
        },
    }
}

/// Another status of an entry keeps what every step keeps.
pub proof fn with_status_keeps_wf(state: AppView, path: PathView, status: StatusView)
    requires
        state.wf(),
    ensures
        state.with_status(path, status).wf(),
{
    let at = index_of_path(state.entries, path);
    index_of_path_is_first(state.entries, path);
    if at < state.entries.len() {
        totals_update(
            state.entries,
            at,
            EntryView { delete_status: status, ..state.entries[at] },
        );
    }
}

/// A key keeps what every step keeps.
pub proof fn after_key_keeps_wf(state: AppView, key: KeyEvent)
    requires
        state.wf(),
    ensures
        state.after_key(key).0.wf(),
{
    recomputed_keeps_wf(
        AppView { sort_order: crate::entry::other_order(state.sort_order), ..state },
    );
    recomputed_keeps_wf(AppView { search_query: state.search_query.drop_last(), ..state });
    recomputed_keeps_wf(state);
    match key.code {
        crate::key::KeyCode::Char(character) => {
            recomputed_keeps_wf(
                AppView { search_query: state.search_query.push(character), ..state },
            );
        },
        _ => {},
    }
    match state.current_entry() {
        Some(entry) => {
            with_status_keeps_wf(state, entry.target_path, StatusView::Deleting);
        },
        None => {},
    }
    match state.mode {
        AppMode::SortMenu { index } => {
            let field = crate::entry::sort_fields()[index as int];
            recomputed_keeps_wf(
                AppView {
                    sort_field: field,
                    sort_order: crate::entry::default_sort_order(field),
                    ..state
                },
            );
        },
        _ => {},
    }
}

} // verus!
