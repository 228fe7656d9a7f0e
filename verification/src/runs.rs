//! What holds at every moment of a run of the program.

use crate::consistency::{
    after_key_keeps_wf, after_message_keeps_wf, index_of_path_is_first, rows_are_matches,
    sorting_keeps_totals,
};
use crate::entry::{matches_query, EntryView, SortField, SortOrder, StatusView};
use crate::key::KeyEvent;
use crate::message::MessageView;
use crate::model::{distinct_paths, index_of_path, matching_indices, AppView};
use crate::path::PathView;
use crate::sort::{inserted, sorted_entries, sorting_keeps_entries};
use crate::time::TimeSpan;
use crate::totals::{effective_total, effective_within_size, totals_update};
use vstd::prelude::*;

verus! {

/// What a program meets with: a key, a report of the work on the file system, or the passing of
/// time.
pub enum InputView {
    Key(KeyEvent),
    Message(MessageView),
    Time(TimeSpan),
}

/// Whether a report can come at a moment: a scan reports its progress while it runs, and at its
/// end every directory once, none of them removed yet, and no more than can be counted.
pub open spec fn comes_in_turn(state: AppView, input: InputView) -> bool {
    match input {
        InputView::Message(message) => {
            &&& message.fits()
            &&& match message {
                MessageView::ScanProgress { .. } => state.mode is Scanning,
                MessageView::ScanComplete { entries, .. } => {
                    &&& entries.len() <= usize::MAX
                    &&& distinct_paths(entries)
                    &&& forall|index: int|
                        0 <= index < entries.len() ==> (#[trigger] entries[index]).delete_status is Ready
                },
                MessageView::DeleteProgress { .. } => true,
            }
        },
        _ => true,
    }
}

/// The state after a program has met with something.
pub open spec fn after_input(state: AppView, input: InputView) -> AppView {
    match input {
        InputView::Key(key) => state.after_key(key).0,
        InputView::Message(message) => state.after_message(message),
        InputView::Time(span) => state.after_time(span),
    }
}

/// The state of a program below a root after all that it has met with.
pub open spec fn after_inputs(root: PathView, inputs: Seq<InputView>) -> AppView
    decreases inputs.len(),
{
    if inputs.len() == 0 {
        AppView::initial(root)
    } else {
        after_input(after_inputs(root, inputs.drop_last()), inputs.last())
    }
}

/// Whether every report came in its turn.
pub open spec fn all_in_turn(root: PathView, inputs: Seq<InputView>) -> bool
    decreases inputs.len(),
{
    inputs.len() == 0 || (all_in_turn(root, inputs.drop_last()) && comes_in_turn(
        after_inputs(root, inputs.drop_last()),
        inputs.last(),
    ))
}

/// Whether a path stands on a list.
spec fn listed(entries: Seq<EntryView>, path: PathView) -> bool {
    exists|index: int|
        0 <= index < entries.len() && (#[trigger] entries[index]).target_path == path
}

proof fn inserting_keeps_distinct(
    sorted: Seq<EntryView>,
    entry: EntryView,
    field: SortField,
    order: SortOrder,
)
    requires
        distinct_paths(sorted),
        !listed(sorted, entry.target_path),
    ensures
        distinct_paths(inserted(sorted, entry, field, order)),
        forall|path: PathView|
            listed(inserted(sorted, entry, field, order), path) ==> #[trigger] listed(sorted, path)
                || path == entry.target_path,
    decreases sorted.len(),
{
    let result = inserted(sorted, entry, field, order);
    if sorted.len() == 0 || crate::entry::entry_le(sorted.last(), entry, field, order) {
        assert(result.drop_last() =~= sorted);
        assert forall|path: PathView| listed(result, path) implies #[trigger] listed(sorted, path)
            || path == entry.target_path by {
            let at = choose|index: int|
                0 <= index < result.len() && (#[trigger] result[index]).target_path == path;
            if at < sorted.len() {
                assert(sorted[at].target_path == path);
            }
        }
    } else {
        let shorter = sorted.drop_last();
        let before = inserted(shorter, entry, field, order);
        assert(!listed(shorter, entry.target_path)) by {
            if listed(shorter, entry.target_path) {
                let at = choose|index: int|
                    0 <= index < shorter.len() && (#[trigger] shorter[index]).target_path
                        == entry.target_path;
                assert(sorted[at].target_path == entry.target_path);
            }
        }
        inserting_keeps_distinct(shorter, entry, field, order);
        assert(result.drop_last() =~= before);
        assert(sorted[sorted.len() - 1] == sorted.last());
        assert forall|left: int, right: int| 0 <= left < right < result.len() implies (
        #[trigger] result[left]).target_path != (#[trigger] result[right]).target_path by {
            assert(before[left] == result[left]);
            if right < before.len() {
                assert(before[right] == result[right]);
            } else if before[left].target_path == sorted.last().target_path {
                assert(listed(before, sorted.last().target_path));
                assert(listed(shorter, sorted.last().target_path));
                let at = choose|index: int|
                    0 <= index < shorter.len() && (#[trigger] shorter[index]).target_path
                        == sorted.last().target_path;
                assert(sorted[at] == shorter[at]);
            }
        }
        assert forall|path: PathView| listed(result, path) implies #[trigger] listed(sorted, path)
            || path == entry.target_path by {
            let at = choose|index: int|
                0 <= index < result.len() && (#[trigger] result[index]).target_path == path;
            if at < before.len() {
                assert(before[at].target_path == path);
                assert(listed(before, path));
                if path != entry.target_path {
                    assert(listed(shorter, path));
                    let place = choose|index: int|
                        0 <= index < shorter.len() && (#[trigger] shorter[index]).target_path
                            == path;
                    assert(sorted[place] == shorter[place]);
                }
            } else {
                assert(sorted[sorted.len() - 1].target_path == path);
            }
        }
    }
}

proof fn sorting_keeps_distinct(entries: Seq<EntryView>, field: SortField, order: SortOrder)
    requires
        distinct_paths(entries),
    ensures
        distinct_paths(sorted_entries(entries, field, order)),
        forall|path: PathView|
            listed(sorted_entries(entries, field, order), path) ==> #[trigger] listed(
                entries,
                path,
            ),
    decreases entries.len(),
{
    if entries.len() > 0 {
        let shorter = entries.drop_last();
        let before = sorted_entries(shorter, field, order);
        let entry = entries.last();
        sorting_keeps_distinct(shorter, field, order);
        if listed(before, entry.target_path) {
            assert(listed(shorter, entry.target_path));
            let at = choose|index: int|
                0 <= index < shorter.len() && (#[trigger] shorter[index]).target_path
                    == entry.target_path;
            assert(entries[at] == shorter[at]);
            assert(entries[entries.len() - 1] == entry);
        }
        inserting_keeps_distinct(before, entry, field, order);
        assert forall|path: PathView|
            listed(sorted_entries(entries, field, order), path) implies #[trigger] listed(
            entries,
            path,
        ) by {
            if path == entry.target_path {
                assert(entries[entries.len() - 1].target_path == path);
            } else {
                assert(listed(before, path));
                assert(listed(shorter, path));
                let at = choose|index: int|
                    0 <= index < shorter.len() && (#[trigger] shorter[index]).target_path == path;
                assert(entries[at] == shorter[at]);
            }
        }
    } else {
        assert forall|path: PathView|
            listed(sorted_entries(entries, field, order), path) implies #[trigger] listed(
            entries,
            path,
        ) by {}
    }
}

/// Sorting and searching again keeps every directory on the list once, and leaves the rows in
/// the order of the list.
pub proof fn recomputed_is_distinct(state: AppView)
    requires
        state.entries.len() <= usize::MAX,
        distinct_paths(state.entries),
    ensures
        state.recomputed().distinct(),
{
    let entries = sorted_entries(state.entries, state.sort_field, state.sort_order);
    sorting_keeps_entries(state.entries, state.sort_field, state.sort_order);
    sorting_keeps_distinct(state.entries, state.sort_field, state.sort_order);
    rows_are_matches(entries, state.search_query, entries.len());
}

/// Sorting and searching again keeps the total.
proof fn recomputed_keeps_total(state: AppView)
    ensures
        effective_total(state.recomputed().entries) == effective_total(state.entries),
        state.recomputed().scan_summary == state.scan_summary,
        state.recomputed().mode == state.mode,
{
    sorting_keeps_totals(state.entries, state.sort_field, state.sort_order);
}

/// The start of a removal changes neither the paths on the list nor the total.
proof fn starting_removal_is_neutral(state: AppView, path: PathView)
    requires
        state.distinct(),
        state.settled(),
        index_of_path(state.entries, path) < state.entries.len(),
        state.entries[index_of_path(state.entries, path)].selectable(),
    ensures
        state.with_status(path, StatusView::Deleting).distinct(),
        state.with_status(path, StatusView::Deleting).settled(),
{
    let at = index_of_path(state.entries, path);
    index_of_path_is_first(state.entries, path);
    let entry = EntryView { delete_status: StatusView::Deleting, ..state.entries[at] };
    totals_update(state.entries, at, entry);
}

/// Where no directory stands on the list twice, the first entry with the path of an entry is that
/// entry.
pub proof fn path_leads_to_its_entry(entries: Seq<EntryView>, index: int)
    requires
        distinct_paths(entries),
        0 <= index < entries.len(),
    ensures
        index_of_path(entries, entries[index].target_path) == index,
{
    let at = index_of_path(entries, entries[index].target_path);
    index_of_path_is_first(entries, entries[index].target_path);
    if at < index {
        assert(entries[at].target_path != entries[index].target_path);
    }
}

proof fn key_keeps_order(state: AppView, key: KeyEvent)
    requires
        state.wf(),
        state.distinct(),
        state.settled(),
    ensures
        state.after_key(key).0.distinct(),
        state.after_key(key).0.settled(),
{
    let turned = AppView { sort_order: crate::entry::other_order(state.sort_order), ..state };
    recomputed_is_distinct(turned);
    recomputed_keeps_total(turned);
    let shorter = AppView { search_query: state.search_query.drop_last(), ..state };
    recomputed_is_distinct(shorter);
    recomputed_keeps_total(shorter);
    recomputed_is_distinct(state);
    recomputed_keeps_total(state);
    match key.code {
        crate::key::KeyCode::Char(character) => {
            let longer = AppView { search_query: state.search_query.push(character), ..state };
            recomputed_is_distinct(longer);
            recomputed_keeps_total(longer);
        },
        _ => {},
    }
    match state.mode {
        crate::model::AppMode::SortMenu { index } => {
            let field = crate::entry::sort_fields()[index as int];
            let other = AppView {
                sort_field: field,
                sort_order: crate::entry::default_sort_order(field),
                ..state
            };
            recomputed_is_distinct(other);
            recomputed_keeps_total(other);
        },
        _ => {},
    }
    match state.current_entry() {
        Some(entry) => {
            path_leads_to_its_entry(
                state.entries,
                state.filtered_indices[state.cursor as int] as int,
            );
            if entry.selectable() {
                starting_removal_is_neutral(state, entry.target_path);
            }
        },
        None => {},
    }
}

proof fn unremoved_take_up_their_sizes(entries: Seq<EntryView>)
    requires
        forall|index: int|
            0 <= index < entries.len() ==> (#[trigger] entries[index]).delete_status is Ready,
    ensures
        effective_total(entries) == crate::totals::size_total(entries),
    decreases entries.len(),
{
    if entries.len() > 0 {
        let shorter = entries.drop_last();
        assert forall|index: int| 0 <= index < shorter.len() implies (
        #[trigger] shorter[index]).delete_status is Ready by {
            assert(entries[index] == shorter[index]);
        }
        unremoved_take_up_their_sizes(shorter);
        assert(entries[entries.len() - 1] == entries.last());
    }
}

proof fn message_keeps_order(state: AppView, message: MessageView)
    requires
        state.wf(),
        state.distinct(),
        state.settled(),
        comes_in_turn(state, InputView::Message(message)),
    ensures
        state.after_message(message).distinct(),
        state.after_message(message).settled(),
{
    match message {
        MessageView::ScanProgress { .. } => {},
        MessageView::ScanComplete { entries, warnings, elapsed } => {
            let known = entries.map_values(|entry: EntryView| entry.target_path).to_set();
            let filled = AppView {
                entries,
                scan_summary: crate::model::SummaryView {
                    discovered: entries.len() as usize,
                    total_bytes: crate::totals::size_total(entries) as u64,
                    current_path: None,
                    elapsed,
                },
                scan_warnings: warnings,
                selected: state.selected.intersect(known),
                ..state
            };
            recomputed_is_distinct(filled);
            recomputed_keeps_total(filled);
            unremoved_take_up_their_sizes(entries);
        },
        MessageView::DeleteProgress { path, status } => {
            let at = index_of_path(state.entries, path);
            index_of_path_is_first(state.entries, path);
            if at < state.entries.len() {
                let size_bytes = if status is Deleted {
                    0
                } else {
                    state.entries[at].size_bytes
                };
                let entry = EntryView { size_bytes, delete_status: status, ..state.entries[at] };
                totals_update(state.entries, at, entry);
                effective_within_size(state.entries.update(at, entry));
            }
        },
    }
}

/// What a search shows depends on the names and the paths of the entries alone.
proof fn matches_follow_names(
    before: Seq<EntryView>,
    after: Seq<EntryView>,
    query: Seq<char>,
    count: nat,
)
    requires
        count <= before.len(),
        before.len() == after.len(),
        forall|index: int|
            0 <= index < before.len() ==> (#[trigger] after[index]).display_name
                == before[index].display_name && after[index].relative_path
                == before[index].relative_path,
    ensures
        matching_indices(after, query, count) == matching_indices(before, query, count),
    decreases count,
{
    if count > 0 {
        matches_follow_names(before, after, query, (count - 1) as nat);
        assert(after[count - 1].display_name == before[count - 1].display_name);
    }
}

proof fn updated_entry_keeps_rows(state: AppView, after: AppView, at: int, entry: EntryView)
    requires
        state.filtered(),
        0 <= at < state.entries.len(),
        entry.display_name == state.entries[at].display_name,
        entry.relative_path == state.entries[at].relative_path,
        after.entries == state.entries.update(at, entry),
        after.filtered_indices == state.filtered_indices,
        after.search_query == state.search_query,
    ensures
        after.filtered(),
{
    matches_follow_names(
        state.entries,
        after.entries,
        state.search_query,
        state.entries.len(),
    );
}

proof fn key_keeps_rows(state: AppView, key: KeyEvent)
    requires
        state.filtered(),
    ensures
        state.after_key(key).0.filtered(),
{
    match state.current_entry() {
        Some(current) => {
            let path = current.target_path;
            let at = index_of_path(state.entries, path);
            index_of_path_is_first(state.entries, path);
            if at < state.entries.len() {
                updated_entry_keeps_rows(
                    state,
                    state.with_status(path, StatusView::Deleting),
                    at,
                    EntryView { delete_status: StatusView::Deleting, ..state.entries[at] },
                );
            }
        },
        None => {},
    }
}

proof fn message_keeps_rows(state: AppView, message: MessageView)
    requires
        state.filtered(),
    ensures
        state.after_message(message).filtered(),
{
    match message {
        MessageView::DeleteProgress { path, status } => {
            let at = index_of_path(state.entries, path);
            index_of_path_is_first(state.entries, path);
            if at < state.entries.len() {
                let size_bytes = if status is Deleted {
                    0
                } else {
                    state.entries[at].size_bytes
                };
                updated_entry_keeps_rows(
                    state,
                    state.after_delete(path, status),
                    at,
                    EntryView { size_bytes, delete_status: status, ..state.entries[at] },
                );
            }
        },
        _ => {},
    }
}

/// At every moment of a run the cursor is on a row, the rows are exactly the entries that the
/// search shows, in the order of the list, no directory stands on the list twice, the sizes can
/// be added up, and outside of a scan the total is what the directories of the list take up.
pub proof fn every_moment_is_consistent(root: PathView, inputs: Seq<InputView>)
    requires
        all_in_turn(root, inputs),
    ensures
        after_inputs(root, inputs).wf(),
        after_inputs(root, inputs).distinct(),
        after_inputs(root, inputs).settled(),
        after_inputs(root, inputs).filtered(),
        ({
            let state = after_inputs(root, inputs);
            forall|index: int|
                0 <= index < state.entries.len() ==> (state.filtered_indices.contains(
                    index as usize,
                ) <==> matches_query(#[trigger] state.entries[index], state.search_query))
        }),
    decreases inputs.len(),
{
    let state = after_inputs(root, inputs);
    if inputs.len() > 0 {
        let before = after_inputs(root, inputs.drop_last());
        every_moment_is_consistent(root, inputs.drop_last());
        match inputs.last() {
            InputView::Key(key) => {
                after_key_keeps_wf(before, key);
                key_keeps_order(before, key);
                key_keeps_rows(before, key);
            },
            InputView::Message(message) => {
                after_message_keeps_wf(before, message);
                message_keeps_order(before, message);
                message_keeps_rows(before, message);
            },
            InputView::Time(_) => {},
        }
    }
    rows_are_matches(state.entries, state.search_query, state.entries.len());
    assert forall|index: int| 0 <= index < state.entries.len() implies (
    state.filtered_indices.contains(index as usize) <==> matches_query(
        #[trigger] state.entries[index],
        state.search_query,
    )) by {
        if state.filtered_indices.contains(index as usize) {
            let row = state.filtered_indices.index_of(index as usize);
            assert(state.filtered_indices[row] == index as usize);
        }
    }
}

} // verus!
