//! What holds of the program as a whole.

use crate::consistency::{index_of_path_is_first, rows_are_matches};
use crate::entry::{matches_query, EntryView, StatusView, SORT_FIELD_COUNT};
use crate::key::{KeyCode, KeyEvent};
use crate::message::{CommandView, MessageView};
use crate::model::{
    distinct_paths, index_of_path, matching_indices, selectable_paths, toggled_each, AppMode,
    AppView,
};
use crate::path::PathView;
use crate::runs::path_leads_to_its_entry;
use crate::sort::{
    is_sorted, sorted_entries, sorting_keeps_entries, sorting_leaves_sorted, sorting_sorts,
};
use crate::text::{lower_character, lower_text, occurs_at, occurs_in};
use crate::time::TimeSpan;
use crate::totals::{effective_total, effective_within_size, totals_of_some, totals_update};
use vstd::prelude::*;

verus! {

proof fn toggling_touches_only_listed(
    selected: Set<PathView>,
    paths: Seq<PathView>,
    other: PathView,
)
    requires
        !paths.contains(other),
    ensures
        toggled_each(selected, paths).contains(other) == selected.contains(other),
    decreases paths.len(),
{
    if paths.len() > 0 {
        let shorter = paths.drop_last();
        assert(!shorter.contains(other)) by {
            if shorter.contains(other) {
                let at = shorter.index_of(other);
                assert(paths[at] == other);
            }
        }
        assert(paths[paths.len() - 1] != other);
        toggling_touches_only_listed(selected, shorter, other);
    }
}

/// Selecting all rows and inverting the selection touch visible rows only: every other path is
/// selected afterwards exactly where it was before.
pub proof fn selection_stays_scoped_to_visible_rows(state: AppView, other: PathView)
    requires
        !state.visible_paths().contains(other),
    ensures
        state.with_all_toggled().selected.contains(other) == state.selected.contains(other),
        state.with_rows_inverted().selected.contains(other) == state.selected.contains(other),
{
    toggling_touches_only_listed(state.selected, state.visible_paths(), other);
}

/// After all rows were toggled, all of them are selected, or none is: none exactly where all
/// were selected before.
pub proof fn toggling_all_selects_all_or_none(state: AppView, path: PathView)
    requires
        state.visible_paths().contains(path),
    ensures
        state.with_all_toggled().selected.contains(path)
            == !state.visible_paths().to_set().subset_of(state.selected),
{
}

/// Toggling all rows again, once all of them were selected, selects them again.
pub proof fn toggling_all_twice_restores_full_selection(state: AppView)
    requires
        state.visible_paths().to_set().subset_of(state.selected),
    ensures
        state.with_all_toggled().with_all_toggled() == state,
{
    let visible = state.visible_paths().to_set();
    let once = state.with_all_toggled();
    let twice = once.with_all_toggled();
    assert(once.visible_paths() == state.visible_paths());
    if state.visible_paths().len() > 0 {
        let path = state.visible_paths()[0];
        assert(state.visible_paths().contains(path));
        assert(visible.contains(path));
        assert(!once.selected.contains(path));
    } else {
        assert(visible =~= Set::<PathView>::empty());
    }
    assert(twice.selected =~= state.selected);
}

proof fn toggling_each_of_distinct(
    selected: Set<PathView>,
    paths: Seq<PathView>,
    path: PathView,
)
    requires
        paths.no_duplicates(),
        paths.contains(path),
    ensures
        toggled_each(selected, paths).contains(path) == !selected.contains(path),
    decreases paths.len(),
{
    let shorter = paths.drop_last();
    if paths.last() == path {
        assert(!shorter.contains(path)) by {
            if shorter.contains(path) {
                let at = shorter.index_of(path);
                assert(paths[at] == path);
            }
        }
        toggling_touches_only_listed(selected, shorter, path);
    } else {
        let at = paths.index_of(path);
        assert(shorter[at] == path);
        toggling_each_of_distinct(selected, shorter, path);
    }
}

proof fn rows_have_distinct_paths(entries: Seq<EntryView>, indices: Seq<usize>)
    requires
        distinct_paths(entries),
        forall|left: int, right: int|
            0 <= left < right < indices.len() ==> #[trigger] indices[left]
                < #[trigger] indices[right],
        forall|row: int| 0 <= row < indices.len() ==> #[trigger] indices[row] < entries.len(),
    ensures
        selectable_paths(entries, indices).no_duplicates(),
        forall|path: PathView| #[trigger]
            selectable_paths(entries, indices).contains(path) ==> exists|row: int|
                0 <= row < indices.len() && entries[#[trigger] indices[row] as int].target_path
                    == path,
    decreases indices.len(),
{
    if indices.len() > 0 {
        let shorter = indices.drop_last();
        let before = selectable_paths(entries, shorter);
        let all = selectable_paths(entries, indices);
        let last = entries[indices.last() as int].target_path;
        assert forall|row: int| 0 <= row < shorter.len() implies #[trigger] shorter[row]
            < entries.len() by {
            assert(shorter[row] == indices[row]);
        }
        assert(indices[indices.len() - 1] == indices.last());
        rows_have_distinct_paths(entries, shorter);
        assert(!before.contains(last)) by {
            if before.contains(last) {
                let row = choose|row: int|
                    0 <= row < shorter.len() && entries[#[trigger] shorter[row] as int].target_path
                        == last;
                assert(indices[row] == shorter[row]);
                assert(indices[row] < indices[indices.len() - 1]);
            }
        }
        assert forall|path: PathView| #[trigger] all.contains(path) implies exists|row: int|
            0 <= row < indices.len() && entries[#[trigger] indices[row] as int].target_path
                == path by {
            let at = all.index_of(path);
            if at < before.len() {
                assert(before[at] == path);
                assert(before.contains(path));
                let row = choose|row: int|
                    0 <= row < shorter.len() && entries[#[trigger] shorter[row] as int].target_path
                        == path;
                assert(indices[row] == shorter[row]);
            } else {
                assert(entries[indices[indices.len() - 1] as int].target_path == path);
            }
        }
    }
}

/// Inverting the selection selects exactly those rows that were not selected.
pub proof fn inverting_flips_each_row(state: AppView, path: PathView)
    requires
        state.wf(),
        state.distinct(),
        state.visible_paths().contains(path),
    ensures
        state.with_rows_inverted().selected.contains(path) == !state.selected.contains(path),
{
    rows_have_distinct_paths(state.entries, state.filtered_indices);
    toggling_each_of_distinct(state.selected, state.visible_paths(), path);
}

/// Inverting the selection twice leaves it as it was.
pub proof fn inverting_twice_changes_nothing(state: AppView)
    requires
        state.wf(),
        state.distinct(),
    ensures
        state.with_rows_inverted().with_rows_inverted() == state,
{
    let once = state.with_rows_inverted();
    let twice = once.with_rows_inverted();
    assert(once.visible_paths() == state.visible_paths());
    assert forall|path: PathView|
        twice.selected.contains(path) == state.selected.contains(path) by {
        if state.visible_paths().contains(path) {
            inverting_flips_each_row(state, path);
            inverting_flips_each_row(once, path);
        } else {
            selection_stays_scoped_to_visible_rows(state, path);
            selection_stays_scoped_to_visible_rows(once, path);
        }
    }
    assert(twice.selected =~= state.selected);
}

/// The end of a removal keeps the list: no entry is lost or moved, and every entry but the first
/// with the path stays as it is.
pub proof fn removal_leaves_other_entries(
    state: AppView,
    path: PathView,
    status: StatusView,
    index: int,
)
    requires
        0 <= index < state.entries.len(),
        index != index_of_path(state.entries, path),
    ensures
        state.after_delete(path, status).entries.len() == state.entries.len(),
        state.after_delete(path, status).entries[index] == state.entries[index],
        state.after_delete(path, status).filtered_indices == state.filtered_indices,
        state.after_delete(path, status).scan_summary.discovered == state.scan_summary.discovered,
{
    index_of_path_is_first(state.entries, path);
}

/// A directory that is gone takes its bytes off the total, is no longer selected, and can be
/// neither selected nor removed again.
pub proof fn removed_directory_is_taken_off(state: AppView, path: PathView)
    requires
        state.wf(),
        index_of_path(state.entries, path) < state.entries.len(),
    ensures
        ({
            let at = index_of_path(state.entries, path);
            let after = state.after_delete(path, StatusView::Deleted);
            &&& after.scan_summary.total_bytes == effective_total(state.entries)
                - state.entries[at].effective_size()
            &&& !after.selected.contains(path)
            &&& forall|other: PathView|
                other != path ==> after.selected.contains(other) == state.selected.contains(other)
            &&& after.entries[at].effective_size() == 0
            &&& after.entries[at].original_size_bytes == state.entries[at].original_size_bytes
            &&& !after.entries[at].selectable()
        }),
{
    let at = index_of_path(state.entries, path);
    index_of_path_is_first(state.entries, path);
    effective_within_size(state.entries);
    totals_update(
        state.entries,
        at,
        EntryView { size_bytes: 0, delete_status: StatusView::Deleted, ..state.entries[at] },
    );
}

/// A removal that failed changes nothing but the status: the directory keeps its bytes and its
/// place in the selection, and from the row of the directory its removal can be started again.
pub proof fn failed_removal_can_be_retried(state: AppView, path: PathView, reason: Seq<char>)
    requires
        state.wf(),
        state.distinct(),
        index_of_path(state.entries, path) < state.entries.len(),
    ensures
        ({
            let at = index_of_path(state.entries, path);
            let before = state.entries[at];
            let after = state.after_delete(path, StatusView::Failed(reason));
            &&& after.selected == state.selected
            &&& after.entries[at] == (EntryView {
                delete_status: StatusView::Failed(reason),
                ..before
            })
            &&& !(before.delete_status is Deleted) ==> after.scan_summary.total_bytes
                == effective_total(state.entries)
            &&& state.cursor < state.filtered_indices.len()
                && state.filtered_indices[state.cursor as int] == at
                ==> after.deleting_current().1 == Some(
                CommandView::Delete { root: state.root, path },
            )
        }),
{
    let at = index_of_path(state.entries, path);
    index_of_path_is_first(state.entries, path);
    let entry = EntryView { delete_status: StatusView::Failed(reason), ..state.entries[at] };
    totals_update(state.entries, at, entry);
    effective_within_size(state.entries.update(at, entry));
}

/// The removal of a directory that is gone or being removed is not started again.
pub proof fn removal_is_not_started_twice(state: AppView)
    requires
        state.current_entry() matches Some(entry) && !entry.selectable(),
    ensures
        state.deleting_current() == (state, None::<CommandView>),
{
}

/// Once the removal of the directory under the cursor was started, it is not started again.
pub proof fn started_removal_blocks_another(state: AppView)
    requires
        state.wf(),
        state.distinct(),
    ensures
        state.deleting_current().0.deleting_current().1 is None,
{
    if state.cursor < state.filtered_indices.len() {
        let index = state.filtered_indices[state.cursor as int];
        path_leads_to_its_entry(state.entries, index as int);
    }
}

/// The start of a removal marks the entry under the cursor, and leaves all else as it is.
pub proof fn starting_removal_marks_one_entry(state: AppView)
    requires
        state.wf(),
        state.distinct(),
        state.current_entry() matches Some(entry) && entry.selectable(),
    ensures
        ({
            let at = state.filtered_indices[state.cursor as int] as int;
            state.deleting_current() == (
                AppView {
                    entries: state.entries.update(
                        at,
                        EntryView { delete_status: StatusView::Deleting, ..state.entries[at] },
                    ),
                    ..state
                },
                Some(
                    CommandView::Delete { root: state.root, path: state.entries[at].target_path },
                ),
            )
        }),
{
    path_leads_to_its_entry(
        state.entries,
        state.filtered_indices[state.cursor as int] as int,
    );
}

/// A removal is started by one key alone, in the list, and for the directory under the cursor.
pub proof fn only_one_key_removes(state: AppView, key: KeyEvent, root: PathView, path: PathView)
    requires
        state.after_key(key).1 == Some((CommandView::Delete { root, path })),
    ensures
        state.mode is Browsing,
        key.code == KeyCode::Char('d'),
        root == state.root,
        state.current_entry() matches Some(entry) && entry.target_path == path
            && entry.selectable(),
{
}

/// Control and `c` together end the program in every mode.
pub proof fn control_c_always_quits(state: AppView, key: KeyEvent)
    requires
        key.control,
        key.code == KeyCode::Char('c'),
    ensures
        state.after_key(key) == (state.quitting(), None::<CommandView>),
{
}

/// The selected directories take up no more than all directories.
pub proof fn selected_total_within_total(state: AppView)
    ensures
        effective_total(state.selected_entries()) <= effective_total(state.entries),
{
    let chosen = |entry: EntryView|
        entry.selectable() && state.selected.contains(entry.target_path);
    totals_of_some(state.entries, chosen);
}

/// The list is sorted after every step that sorts and searches again.
pub proof fn recomputed_list_is_sorted(state: AppView)
    ensures
        is_sorted(state.recomputed().entries, state.sort_field, state.sort_order),
        state.recomputed().entries.to_multiset() == state.entries.to_multiset(),
{
    sorting_sorts(state.entries, state.sort_field, state.sort_order);
    sorting_keeps_entries(state.entries, state.sort_field, state.sort_order);
}

/// Sorting and searching once more changes nothing.
pub proof fn recomputing_twice_changes_nothing(state: AppView)
    ensures
        state.recomputed().recomputed() == state.recomputed(),
{
    sorting_sorts(state.entries, state.sort_field, state.sort_order);
    sorting_leaves_sorted(
        sorted_entries(state.entries, state.sort_field, state.sort_order),
        state.sort_field,
        state.sort_order,
    );
}

/// The rows are exactly those entries that the search shows.
pub proof fn rows_show_exactly_the_matches(state: AppView, index: int)
    requires
        state.wf(),
        0 <= index < state.entries.len(),
    ensures
        state.recomputed().filtered_indices.contains(index as usize) <==> matches_query(
            state.recomputed().entries[index],
            state.search_query,
        ),
{
    let entries = sorted_entries(state.entries, state.sort_field, state.sort_order);
    sorting_keeps_entries(state.entries, state.sort_field, state.sort_order);
    rows_are_matches(entries, state.search_query, entries.len());
    let rows = state.recomputed().filtered_indices;
    if rows.contains(index as usize) {
        let at = rows.index_of(index as usize);
        assert(rows[at] == index as usize);
    }
}

proof fn empty_query_matches_all(entries: Seq<EntryView>, count: nat)
    requires
        count <= entries.len() <= usize::MAX,
    ensures
        matching_indices(entries, Seq::empty(), count).len() == count,
        forall|row: int|
            0 <= row < count ==> #[trigger] matching_indices(entries, Seq::empty(), count)[row]
                == row,
    decreases count,
{
    if count > 0 {
        empty_query_matches_all(entries, (count - 1) as nat);
    }
}

/// Without a query every entry has its row.
pub proof fn empty_query_shows_everything(state: AppView, row: int)
    requires
        state.wf(),
        state.search_query.len() == 0,
        0 <= row < state.entries.len(),
    ensures
        state.recomputed().filtered_indices.len() == state.entries.len(),
        state.recomputed().filtered_indices[row] == row,
{
    let entries = sorted_entries(state.entries, state.sort_field, state.sort_order);
    sorting_keeps_entries(state.entries, state.sort_field, state.sort_order);
    assert(state.search_query =~= Seq::<char>::empty());
    empty_query_matches_all(entries, entries.len());
}

/// Capitals in the query make no difference.
pub proof fn search_ignores_case(entry: EntryView, query: Seq<char>)
    ensures
        matches_query(entry, lower_text(query)) == matches_query(entry, query),
{
    assert(lower_text(lower_text(query)) =~= lower_text(query));
}

proof fn longer_needle_occurs_less(text: Seq<char>, needle: Seq<char>, character: char)
    requires
        occurs_in(text, needle.push(character)),
    ensures
        occurs_in(text, needle),
{
    let at = choose|at: int| occurs_at(text, needle.push(character), at);
    assert(text.subrange(at, at + needle.len()) =~= text.subrange(
        at,
        at + needle.len() + 1,
    ).drop_last());
    assert(needle.push(character).drop_last() =~= needle);
    assert(occurs_at(text, needle, at));
}

/// Typing one more character never shows an entry that was hidden.
pub proof fn typing_narrows_the_search(entry: EntryView, query: Seq<char>, character: char)
    requires
        matches_query(entry, query.push(character)),
    ensures
        matches_query(entry, query),
{
    if query.len() > 0 {
        let needle = lower_text(query);
        assert(lower_text(query.push(character)) =~= needle.push(lower_character(character)));
        if occurs_in(lower_text(entry.display_name), needle.push(lower_character(character))) {
            longer_needle_occurs_less(
                lower_text(entry.display_name),
                needle,
                lower_character(character),
            );
        } else {
            longer_needle_occurs_less(
                lower_text(entry.relative_path),
                needle,
                lower_character(character),
            );
        }
    }
}

/// Taking back a character that was typed brings back the query, the list and the rows.
pub proof fn backspace_takes_back_a_character(state: AppView, character: char)
    requires
        state == state.recomputed(),
    ensures
        ({
            let typed = state.after_search_key(
                (KeyEvent { code: KeyCode::Char(character), control: false, alt: false }),
            );
            let back = typed.after_search_key(
                (KeyEvent { code: KeyCode::Backspace, control: false, alt: false }),
            );
            &&& back.search_query == state.search_query
            &&& back.entries == state.entries
            &&& back.filtered_indices == state.filtered_indices
        }),
{
    sorting_sorts(state.entries, state.sort_field, state.sort_order);
    sorting_leaves_sorted(
        sorted_entries(state.entries, state.sort_field, state.sort_order),
        state.sort_field,
        state.sort_order,
    );
    assert(state.search_query.push(character).drop_last() =~= state.search_query);
}

/// A rescan keeps the selection of every directory that is found again, and of no other.
pub proof fn rescan_keeps_selection_of_known(
    state: AppView,
    entries: Seq<EntryView>,
    warnings: Seq<Seq<char>>,
    elapsed: TimeSpan,
    path: PathView,
)
    ensures
        state.scanning().after_message(
            (MessageView::ScanComplete { entries, warnings, elapsed }),
        ).selected.contains(path) <==> state.selected.contains(path) && exists|index: int|
            0 <= index < entries.len() && (#[trigger] entries[index]).target_path == path,
{
    let paths = entries.map_values(|entry: EntryView| entry.target_path);
    if paths.contains(path) {
        let at = paths.index_of(path);
        assert(entries[at].target_path == path);
    }
    assert forall|index: int|
        0 <= index < entries.len() && (
        #[trigger] entries[index]).target_path == path implies paths.contains(path) by {
        assert(paths[index] == path);
    }
}

/// In the menu of fields, one step down and one step up lead back.
pub proof fn menu_steps_lead_back(state: AppView, index: usize, down: KeyEvent, up: KeyEvent)
    requires
        index < SORT_FIELD_COUNT,
        state.mode == (AppMode::SortMenu { index }),
        !down.control,
        !up.control,
        down.code == KeyCode::Down,
        up.code == KeyCode::Up,
    ensures
        state.after_key(down).0.after_key(up).0 == state,
        state.after_key(up).0.after_key(down).0 == state,
{
}

/// Below the last row, one step down and one step up lead back to the same row.
pub proof fn cursor_steps_lead_back(state: AppView)
    requires
        state.wf(),
        state.cursor + 1 < state.filtered_indices.len() <= usize::MAX,
    ensures
        state.moved(1).cursor == state.cursor + 1,
        state.moved(1).moved(-1).cursor == state.cursor,
{
}

/// The number of cleaned directories is that of the directories that do not remain.
pub proof fn cleaned_and_remaining_make_up_the_list(state: AppView)
    ensures
        state.deleted_entries().len() + state.remaining_entries().len() == state.entries.len(),
    decreases state.entries.len(),
{
    reveal(Seq::filter);
    if state.entries.len() > 0 {
        let shorter = AppView { entries: state.entries.drop_last(), ..state };
        cleaned_and_remaining_make_up_the_list(shorter);
    }
}

} // verus!
