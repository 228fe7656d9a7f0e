//! What keys, reports and the passing of time do.

use crate::consistency::{index_of_path_is_first, rows_are_matches};
use crate::entry::{EntryView, SortField, SortOrder, StatusView};
use crate::key::{KeyCode, KeyEvent};
use crate::message::{CommandView, MessageView};
use crate::model::{AppMode, AppView, SummaryView, TableCursor};
use crate::path::PathView;
use crate::runs::path_leads_to_its_entry;
use crate::sort::sorting_keeps_entries;
use crate::time::TimeSpan;
use crate::totals::{effective_total, effective_within_size, size_total, totals_update};
use vstd::prelude::*;

verus! {

/// Whether the table marks the row under the cursor, and none where there is no row. Without rows
/// it shows its beginning; else what it shows first stays.
pub open spec fn marks_the_cursor(before: AppView, after: AppView) -> bool {
    if after.filtered_indices.len() == 0 {
        after.table_state.selected == None::<usize> && after.table_state.offset == 0
    } else {
        after.table_state.selected == Some(after.cursor) && after.table_state.offset
            == before.table_state.offset
    }
}

/// Whether a state is another one with the cursor on a row, which the table marks.
pub open spec fn only_cursor_moved(before: AppView, after: AppView, cursor: int) -> bool {
    &&& after.cursor == cursor
    &&& marks_the_cursor(before, after)
    &&& after == (AppView { cursor: after.cursor, table_state: after.table_state, ..before })
}

/// The cursor moves by as many rows as it is told to, and stops at the first and the last row.
pub proof fn cursor_moves_and_stops(state: AppView, delta: int)
    requires
        state.wf(),
        state.filtered_indices.len() <= usize::MAX,
    ensures
        ({
            let rows = state.filtered_indices.len();
            only_cursor_moved(
                state,
                state.moved(delta),
                if rows == 0 || state.cursor + delta < 0 {
                    0
                } else if state.cursor + delta >= rows {
                    rows - 1
                } else {
                    state.cursor + delta
                },
            )
        }),
{
}

/// Whether a key is not the one that ends the program in every mode.
pub open spec fn is_ordinary(key: KeyEvent) -> bool {
    !key.control || key.code != KeyCode::Char('c')
}

/// Whether a step starts no work and leaves all but the given state.
pub open spec fn quietly(step: (AppView, Option<CommandView>), after: AppView) -> bool {
    step.0 == after && step.1 is None
}

/// In the list, arrows and `j` and `k` move by one row, `g` and `G` go to the first and the last
/// row.
pub proof fn list_keys_move_the_cursor(state: AppView, key: KeyEvent)
    requires
        state.wf(),
        state.filtered_indices.len() <= usize::MAX,
        state.mode == AppMode::Browsing,
        is_ordinary(key),
    ensures
        ({
            let rows = state.filtered_indices.len();
            let (after, command) = state.after_key(key);
            let last = if rows == 0 {
                0
            } else {
                rows - 1
            };
            &&& key.code == KeyCode::Down || key.code == KeyCode::Char('j') ==> command is None
                && only_cursor_moved(
                state,
                after,
                if state.cursor < last {
                    state.cursor + 1
                } else {
                    last
                },
            )
            &&& key.code == KeyCode::Up || key.code == KeyCode::Char('k') ==> command is None
                && only_cursor_moved(
                state,
                after,
                if state.cursor == 0 {
                    0
                } else {
                    state.cursor - 1
                },
            )
            &&& key.code == KeyCode::Char('g') ==> command is None && only_cursor_moved(
                state,
                after,
                0,
            )
            &&& key.code == KeyCode::Char('G') ==> command is None && only_cursor_moved(
                state,
                after,
                last,
            )
        }),
{
}

/// In the list, the other keys select, search, sort, remove, scan, help and quit; a key without a
/// meaning does nothing.
pub proof fn list_keys_do_their_work(state: AppView, key: KeyEvent)
    requires
        state.wf(),
        state.mode == AppMode::Browsing,
        is_ordinary(key),
    ensures
        ({
            let step = state.after_key(key);
            &&& key.code == KeyCode::Char(' ') ==> quietly(step, state.with_current_toggled())
            &&& key.code == KeyCode::Char('a') ==> quietly(step, state.with_all_toggled())
            &&& key.code == KeyCode::Char('i') ==> quietly(step, state.with_rows_inverted())
            &&& key.code == KeyCode::Char('/') ==> quietly(
                step,
                AppView { mode: AppMode::Searching, ..state },
            )
            &&& key.code == KeyCode::Char('?') ==> quietly(
                step,
                AppView { mode: AppMode::Help, ..state },
            )
            &&& key.code == KeyCode::Char('q') ==> quietly(
                step,
                AppView { should_quit: true, ..state },
            )
            &&& key.code == KeyCode::Char('s') ==> quietly(
                step,
                AppView {
                    mode: AppMode::SortMenu {
                        index: match state.sort_field {
                            SortField::Size => 0,
                            SortField::Name => 1,
                            SortField::Modified => 2,
                            SortField::Path => 3,
                        },
                    },
                    ..state
                },
            )
            &&& key.code == KeyCode::Char('d') ==> step == state.deleting_current()
            &&& key.code == KeyCode::Char('r') ==> step == (
                state.scanning(),
                Some(CommandView::Scan { root: state.root }),
            )
            &&& key.code == KeyCode::Enter || key.code == KeyCode::Esc || key.code
                == KeyCode::Backspace || key.code == KeyCode::Other ==> quietly(step, state)
            &&& key.code matches KeyCode::Char(character) ==> (!seq![
                'q', 'j', 'k', 'g', 'G', ' ', 'a', 'i', '/', 's', 'd', 'r', '?',
            ].contains(character) ==> quietly(step, state))
        }),
{
    match key.code {
        KeyCode::Char(character) => {
            let known = seq!['q', 'j', 'k', 'g', 'G', ' ', 'a', 'i', '/', 's', 'd', 'r', '?'];
            assert(known[0] == 'q' && known[1] == 'j' && known[2] == 'k' && known[3] == 'g'
                && known[4] == 'G' && known[5] == ' ' && known[6] == 'a' && known[7] == 'i'
                && known[8] == '/' && known[9] == 's' && known[10] == 'd' && known[11] == 'r'
                && known[12] == '?');
        },
        _ => {},
    }
}

/// A rescan empties the list and forgets what was known of the last scan. The selection, the
/// query and the order stay.
pub proof fn rescan_begins_anew(state: AppView)
    ensures
        ({
            let after = state.scanning();
            &&& after.mode == AppMode::Scanning
            &&& after.entries.len() == 0
            &&& after.filtered_indices.len() == 0
            &&& after.cursor == 0
            &&& after.scan_warnings.len() == 0
            &&& after.scan_summary.discovered == 0
            &&& after.scan_summary.total_bytes == 0
            &&& after.scan_summary.current_path is None
            &&& after.scan_summary.elapsed == (TimeSpan { secs: 0, nanos: 0 })
            &&& after.root == state.root
            &&& after.selected == state.selected
            &&& after.search_query == state.search_query
            &&& after.sort_field == state.sort_field
            &&& after.sort_order == state.sort_order
            &&& after.table_state == state.table_state
            &&& after.should_quit == state.should_quit
            &&& after.animation_tick == state.animation_tick
        }),
{
}

/// A program begins with a scan of its root: nothing is listed, selected or searched for, and the
/// largest directories are to come first.
pub proof fn programs_begin_with_a_scan(root: PathView)
    ensures
        ({
            let state = AppView::initial(root);
            &&& state.root == root
            &&& state.mode == AppMode::Scanning
            &&& state.entries.len() == 0
            &&& state.filtered_indices.len() == 0
            &&& state.cursor == 0
            &&& state.search_query.len() == 0
            &&& state.sort_field == SortField::Size
            &&& state.sort_order == SortOrder::Desc
            &&& state.scan_warnings.len() == 0
            &&& state.scan_summary.discovered == 0
            &&& state.scan_summary.total_bytes == 0
            &&& state.scan_summary.current_path is None
            &&& state.scan_summary.elapsed == (TimeSpan { secs: 0, nanos: 0 })
            &&& state.table_state == (TableCursor { selected: None, offset: 0 })
            &&& !state.should_quit
            &&& state.animation_tick == 0
            &&& forall|path: PathView| !state.selected.contains(path)
        }),
{
}

/// Whether a step only chose the list anew: its entries are the same ones, its rows are those that
/// the search shows, and nothing but the order, the rows, the cursor and the table differs from
/// the state that was given.
pub open spec fn chosen_anew(given: AppView, after: AppView) -> bool {
    &&& after.entries.to_multiset() == given.entries.to_multiset()
    &&& after.filtered()
    &&& after.cursor == if after.filtered_indices.len() == 0 {
        0
    } else if given.cursor < after.filtered_indices.len() {
        given.cursor as int
    } else {
        after.filtered_indices.len() - 1
    }
    &&& marks_the_cursor(given, after)
    &&& after == (AppView {
        entries: after.entries,
        filtered_indices: after.filtered_indices,
        cursor: after.cursor,
        table_state: after.table_state,
        ..given
    })
}

/// Choosing the list anew keeps its entries, shows what the search shows, and leaves the cursor
/// where it was as far as there are rows.
pub proof fn recomputing_chooses_anew(state: AppView)
    requires
        state.listable(),
    ensures
        chosen_anew(state, state.recomputed()),
{
    sorting_keeps_entries(state.entries, state.sort_field, state.sort_order);
    let entries = state.recomputed().entries;
    rows_are_matches(entries, state.search_query, entries.len());
}

/// While searching, a character is put behind the query, Backspace takes the last one off, and
/// the list follows. Escape and Enter go back to the list. Characters with control or alt, and
/// all other keys, do nothing.
pub proof fn search_keys_edit_the_query(state: AppView, key: KeyEvent)
    requires
        state.wf(),
        state.mode == AppMode::Searching,
        is_ordinary(key),
    ensures
        ({
            let step = state.after_key(key);
            &&& step.1 is None
            &&& key.code == KeyCode::Esc || key.code == KeyCode::Enter ==> step.0 == (AppView {
                mode: AppMode::Browsing,
                ..state
            })
            &&& key.code == KeyCode::Backspace && state.search_query.len() > 0 ==> chosen_anew(
                AppView {
                    search_query: state.search_query.take(state.search_query.len() - 1),
                    ..state
                },
                step.0,
            )
            &&& key.code == KeyCode::Backspace && state.search_query.len() == 0 ==> chosen_anew(
                state,
                step.0,
            )
            &&& key.code matches KeyCode::Char(character) ==> (!key.control && !key.alt
                ==> chosen_anew(
                AppView { search_query: state.search_query.push(character), ..state },
                step.0,
            ))
            &&& key.code is Char && (key.control || key.alt) ==> step.0 == state
            &&& key.code == KeyCode::Up || key.code == KeyCode::Down || key.code == KeyCode::Other
                ==> step.0 == state
        }),
{
    let query = state.search_query;
    if query.len() > 0 {
        assert(query.drop_last() =~= query.take(query.len() - 1));
    }
    recomputing_chooses_anew(state);
    recomputing_chooses_anew(AppView { search_query: query.drop_last(), ..state });
    match key.code {
        KeyCode::Char(character) => {
            recomputing_chooses_anew(AppView { search_query: query.push(character), ..state });
        },
        _ => {},
    }
}

/// In the menu of fields, arrows and `j` and `k` go round the four fields, Enter sorts by the
/// marked one and goes back to the list, `s` turns the direction round, and Escape goes back. All
/// other keys do nothing.
pub proof fn menu_keys_choose_a_field(state: AppView, index: usize, key: KeyEvent)
    requires
        state.wf(),
        state.mode == (AppMode::SortMenu { index }),
        is_ordinary(key),
    ensures
        ({
            let step = state.after_key(key);
            let below: usize = if index == 3 {
                0
            } else {
                (index + 1) as usize
            };
            let above: usize = if index == 0 {
                3
            } else {
                (index - 1) as usize
            };
            let fields = seq![
                SortField::Size,
                SortField::Name,
                SortField::Modified,
                SortField::Path,
            ];
            &&& step.1 is None
            &&& key.code == KeyCode::Down || key.code == KeyCode::Char('j') ==> step.0 == (AppView {
                mode: AppMode::SortMenu { index: below },
                ..state
            })
            &&& key.code == KeyCode::Up || key.code == KeyCode::Char('k') ==> step.0 == (AppView {
                mode: AppMode::SortMenu { index: above },
                ..state
            })
            &&& key.code == KeyCode::Esc ==> step.0 == (AppView {
                mode: AppMode::Browsing,
                ..state
            })
            &&& key.code == KeyCode::Enter ==> step.0 == (AppView {
                mode: AppMode::Browsing,
                ..state.sorted_by(fields[index as int])
            })
            &&& key.code == KeyCode::Char('s') ==> step.0.sort_order != state.sort_order
                && chosen_anew(AppView { sort_order: step.0.sort_order, ..state }, step.0)
            &&& key.code == KeyCode::Backspace || key.code == KeyCode::Other ==> step.0 == state
            &&& key.code matches KeyCode::Char(character) ==> (character != 'j' && character != 'k'
                && character != 's' ==> step.0 == state)
        }),
{
    recomputing_chooses_anew(
        AppView { sort_order: crate::entry::other_order(state.sort_order), ..state },
    );
    assert(crate::entry::sort_fields() =~= seq![
        SortField::Size,
        SortField::Name,
        SortField::Modified,
        SortField::Path,
    ]);
}

/// While a scan runs, `q` ends the program and no other key does anything. In the help, Escape and
/// `?` go back to the list and no other key does anything.
pub proof fn other_modes_know_few_keys(state: AppView, key: KeyEvent)
    requires
        is_ordinary(key),
    ensures
        state.mode == AppMode::Scanning ==> quietly(
            state.after_key(key),
            AppView {
                should_quit: state.should_quit || key.code == KeyCode::Char('q'),
                ..state
            },
        ),
        state.mode == AppMode::Help ==> quietly(
            state.after_key(key),
            AppView {
                mode: if key.code == KeyCode::Esc || key.code == KeyCode::Char('?') {
                    AppMode::Browsing
                } else {
                    AppMode::Help
                },
                ..state
            },
        ),
{
}

/// The progress of a scan changes nothing but what is known of the scan.
pub proof fn progress_is_noted(
    state: AppView,
    discovered: usize,
    total_bytes: u64,
    current_path: PathView,
)
    ensures
        ({
            let after = state.after_message(
                MessageView::ScanProgress { discovered, total_bytes, current_path },
            );
            &&& after.scan_summary.discovered == discovered
            &&& after.scan_summary.total_bytes == total_bytes
            &&& after.scan_summary.current_path == Some(current_path)
            &&& after.scan_summary.elapsed == state.scan_summary.elapsed
            &&& after == (AppView { scan_summary: after.scan_summary, ..state })
        }),
{
}

/// The end of a scan puts its entries on the list, keeps the selection of those that are on it,
/// and shows the list.
pub proof fn finished_scans_are_listed(
    state: AppView,
    entries: Seq<EntryView>,
    warnings: Seq<Seq<char>>,
    elapsed: TimeSpan,
    path: PathView,
)
    requires
        state.wf(),
        (MessageView::ScanComplete { entries, warnings, elapsed }).fits(),
        entries.len() <= usize::MAX,
    ensures
        ({
            let after = state.after_message(
                MessageView::ScanComplete { entries, warnings, elapsed },
            );
            &&& after.mode == AppMode::Browsing
            &&& after.scan_summary.discovered == entries.len()
            &&& after.scan_summary.total_bytes == size_total(entries)
            &&& after.scan_summary.current_path is None
            &&& after.scan_summary.elapsed == elapsed
            &&& after.scan_warnings == warnings
            &&& after.selected.contains(path) <==> state.selected.contains(path) && exists|index: int|
                0 <= index < entries.len() && (#[trigger] entries[index]).target_path == path
            &&& chosen_anew(
                AppView {
                    entries,
                    mode: AppMode::Browsing,
                    scan_summary: after.scan_summary,
                    scan_warnings: warnings,
                    selected: after.selected,
                    ..state
                },
                after,
            )
        }),
{
    let known = entries.map_values(|entry: EntryView| entry.target_path);
    let filled = AppView {
        entries,
        scan_summary: SummaryView {
            discovered: entries.len() as usize,
            total_bytes: size_total(entries) as u64,
            current_path: None,
            elapsed,
        },
        scan_warnings: warnings,
        selected: state.selected.intersect(known.to_set()),
        ..state
    };
    recomputing_chooses_anew(filled);
    if known.contains(path) {
        let at = known.index_of(path);
        assert(entries[at].target_path == path);
    }
    assert forall|index: int|
        0 <= index < entries.len() && (
        #[trigger] entries[index]).target_path == path implies known.contains(path) by {
        assert(known[index] == path);
    }
}

/// The end of a removal changes the entry of the directory alone: it gets its status, and once it
/// is gone it takes up nothing and is no longer selected. The total follows.
pub proof fn ended_removal_changes_its_entry(state: AppView, at: int, status: StatusView)
    requires
        state.wf(),
        state.distinct(),
        0 <= at < state.entries.len(),
    ensures
        ({
            let before = state.entries[at];
            let path = before.target_path;
            let after = state.after_message(MessageView::DeleteProgress { path, status });
            let entry = after.entries[at];
            &&& after.entries.len() == state.entries.len()
            &&& forall|index: int|
                0 <= index < state.entries.len() && index != at ==> #[trigger] after.entries[index]
                    == state.entries[index]
            &&& entry.delete_status == status
            &&& entry.size_bytes == if status == StatusView::Deleted {
                0
            } else {
                before.size_bytes
            }
            &&& entry == (EntryView {
                delete_status: entry.delete_status,
                size_bytes: entry.size_bytes,
                ..before
            })
            &&& forall|other: PathView| #[trigger]
                after.selected.contains(other) <==> state.selected.contains(other) && !(status
                    == StatusView::Deleted && other == path)
            &&& after.scan_summary.total_bytes == effective_total(after.entries)
            &&& after.scan_summary == (SummaryView {
                total_bytes: after.scan_summary.total_bytes,
                ..state.scan_summary
            })
            &&& after == (AppView {
                entries: after.entries,
                selected: after.selected,
                scan_summary: after.scan_summary,
                ..state
            })
        }),
{
    let before = state.entries[at];
    path_leads_to_its_entry(state.entries, at);
    let size_bytes = if status == StatusView::Deleted {
        0
    } else {
        before.size_bytes
    };
    let entry = EntryView { size_bytes, delete_status: status, ..before };
    totals_update(state.entries, at, entry);
    effective_within_size(state.entries.update(at, entry));
}

/// The end of a removal of a directory that is not on the list changes nothing.
pub proof fn unlisted_removal_changes_nothing(state: AppView, path: PathView, status: StatusView)
    requires
        forall|index: int|
            0 <= index < state.entries.len() ==> (#[trigger] state.entries[index]).target_path
                != path,
    ensures
        state.after_message(MessageView::DeleteProgress { path, status }) == state,
{
    index_of_path_is_first(state.entries, path);
}

/// Reports are taken in the order in which they came.
pub proof fn reports_are_taken_in_order(
    state: AppView,
    first: Seq<MessageView>,
    second: Seq<MessageView>,
    message: MessageView,
)
    ensures
        state.after_messages(first + second) == state.after_messages(first).after_messages(second),
        state.after_messages(seq![message]) == state.after_message(message),
        state.after_messages(Seq::empty()) == state,
    decreases second.len(),
{
    let single = seq![message];
    assert(single.drop_last() =~= Seq::<MessageView>::empty());
    assert(state.after_messages(single.drop_last()) == state);
    assert(single.last() == message);
    if second.len() == 0 {
        assert(first + second =~= first);
    } else {
        reports_are_taken_in_order(state, first, second.drop_last(), message);
        assert((first + second).drop_last() =~= first + second.drop_last());
        assert((first + second).last() == second.last());
    }
}

/// The spinner moves to its next picture, and from the last of ten to the first, once a tenth of
/// a second has passed while a scan or a removal runs. Nothing else changes with time.
pub proof fn spinner_moves_while_work_runs(state: AppView, span: TimeSpan)
    requires
        state.wf(),
        span.nanos < 1_000_000_000,
    ensures
        ({
            let works = state.mode == AppMode::Scanning || exists|index: int|
                0 <= index < state.entries.len() && (#[trigger] state.entries[index]).delete_status
                    == StatusView::Deleting;
            let due = span.secs * 1_000_000_000 + span.nanos >= 100_000_000;
            let after = state.after_time(span);
            &&& after == (AppView { animation_tick: after.animation_tick, ..state })
            &&& after.animation_tick == if works && due {
                if state.animation_tick == 9 {
                    0
                } else {
                    state.animation_tick + 1
                }
            } else {
                state.animation_tick as int
            }
            &&& state.animated() == works
        }),
{
    if exists|index: int|
        0 <= index < state.entries.len() && (#[trigger] state.entries[index]).delete_status
            == StatusView::Deleting {
        let index = choose|index: int|
            0 <= index < state.entries.len() && (#[trigger] state.entries[index]).delete_status
                == StatusView::Deleting;
        assert(state.entries[index].delete_status is Deleting);
    }
    if exists|index: int|
        0 <= index < state.entries.len() && (
        #[trigger] state.entries[index]).delete_status is Deleting {
        let index = choose|index: int|
            0 <= index < state.entries.len() && (
            #[trigger] state.entries[index]).delete_status is Deleting;
        assert(state.entries[index].delete_status == StatusView::Deleting);
    }
}

/// The removal of the directory under the cursor is started exactly where its entry is neither
/// gone nor being removed; it is started for its own path below the root of the program.
pub proof fn removal_starts_for_the_row_under_the_cursor(state: AppView)
    requires
        state.wf(),
        state.distinct(),
    ensures
        ({
            let at = state.filtered_indices[state.cursor as int] as int;
            let entry = state.entries[at];
            let (after, command) = state.deleting_current();
            let starts = state.cursor < state.filtered_indices.len() && entry.delete_status
                != StatusView::Deleting && entry.delete_status != StatusView::Deleted;
            &&& starts ==> command == Some(
                CommandView::Delete { root: state.root, path: entry.target_path },
            ) && after.entries[at] == (EntryView { delete_status: StatusView::Deleting, ..entry })
                && after.entries.len() == state.entries.len() && forall|index: int|
                0 <= index < state.entries.len() && index != at ==> #[trigger] after.entries[index]
                    == state.entries[index]
            &&& after == (AppView { entries: after.entries, ..state })
            &&& !starts ==> command is None && after == state
        }),
{
    if state.cursor < state.filtered_indices.len() {
        path_leads_to_its_entry(
            state.entries,
            state.filtered_indices[state.cursor as int] as int,
        );
    }
}

/// A key is waited for a tenth of a second while a scan or a removal runs, and a quarter of a second
/// at every other time.
pub proof fn waiting_is_short_while_work_runs(state: AppView, index: int)
    ensures
        state.mode == AppMode::Scanning ==> state.waiting_millis() == 100,
        0 <= index < state.entries.len() && state.entries[index].delete_status
            == StatusView::Deleting ==> state.waiting_millis() == 100,
        state.mode != AppMode::Scanning && (forall|at: int|
            0 <= at < state.entries.len() ==> (#[trigger] state.entries[at]).delete_status
                != StatusView::Deleting) ==> state.waiting_millis() == 250,
{
}

} // verus!
