//! The state of the program as a mathematical value, and what each step makes of it.

use crate::entry::{
    default_sort_order, matches_query, other_order, sort_field_index, sort_fields, EntryView,
    SortField, SortOrder, StatusView, SORT_FIELD_COUNT,
};
use crate::key::{KeyCode, KeyEvent};
use crate::message::{CommandView, MessageView};
use crate::path::PathView;
use crate::sort::sorted_entries;
use crate::time::TimeSpan;
use crate::totals::{effective_total, original_total, size_total};
use vstd::prelude::*;

verus! {

/// What the keyboard is used for at the moment.
#[derive(Clone, Copy, Debug, PartialEq, Eq, Structural)]
pub enum AppMode {
    Scanning,
    Browsing,
    Searching,
    SortMenu { index: usize },
    Help,
}

/// Which row of the table is marked, and which row is the first on the screen.
#[derive(Clone, Copy, Debug, PartialEq, Eq, Structural)]
pub struct TableCursor {
    pub selected: Option<usize>,
    pub offset: usize,
}

/// What is known of a scan.
#[verifier::ext_equal]
pub struct SummaryView {
    pub discovered: usize,
    pub total_bytes: u64,
    pub current_path: Option<PathView>,
    pub elapsed: TimeSpan,
}

/// The state of the program.
#[verifier::ext_equal]
pub struct AppView {
    pub root: PathView,
    pub entries: Seq<EntryView>,
    pub filtered_indices: Seq<usize>,
    pub cursor: usize,
    pub selected: Set<PathView>,
    pub search_query: Seq<char>,
    pub sort_field: SortField,
    pub sort_order: SortOrder,
    pub mode: AppMode,
    pub scan_summary: SummaryView,
    pub scan_warnings: Seq<Seq<char>>,
    pub table_state: TableCursor,
    pub should_quit: bool,
    pub animation_tick: usize,
}

/// The number of pictures of which the spinner is made.
pub const SPINNER_LENGTH: usize = 10;

/// The positions, among the first `count` entries, of those that a search shows.
pub open spec fn matching_indices(
    entries: Seq<EntryView>,
    query: Seq<char>,
    count: nat,
) -> Seq<usize>
    decreases count,
{
    if count == 0 {
        Seq::empty()
    } else {
        let before = matching_indices(entries, query, (count - 1) as nat);
        if matches_query(entries[count - 1], query) {
            before.push((count - 1) as usize)
        } else {
            before
        }
    }
}

/// The position of the first entry with a path; the length of the list where there is none.
pub open spec fn index_of_path(entries: Seq<EntryView>, path: PathView) -> int
    decreases entries.len(),
{
    if entries.len() == 0 {
        0
    } else if entries[0].target_path == path {
        0
    } else {
        1 + index_of_path(entries.drop_first(), path)
    }
}

/// Whether no directory stands on a list twice.
pub open spec fn distinct_paths(entries: Seq<EntryView>) -> bool {
    forall|left: int, right: int|
        0 <= left < right < entries.len() ==> (#[trigger] entries[left]).target_path != (
        #[trigger] entries[right]).target_path
}

/// The paths of those entries at the given positions that can be selected.
pub open spec fn selectable_paths(entries: Seq<EntryView>, indices: Seq<usize>) -> Seq<PathView>
    decreases indices.len(),
{
    if indices.len() == 0 {
        Seq::empty()
    } else {
        let before = selectable_paths(entries, indices.drop_last());
        let entry = entries[indices.last() as int];
        if entry.selectable() {
            before.push(entry.target_path)
        } else {
            before
        }
    }
}

/// A set with a path put in where it was not there, and taken out where it was.
pub open spec fn toggled(selected: Set<PathView>, path: PathView) -> Set<PathView> {
    if selected.contains(path) {
        selected.remove(path)
    } else {
        selected.insert(path)
    }
}

/// A set in which the paths of a list were toggled one after the other.
pub open spec fn toggled_each(selected: Set<PathView>, paths: Seq<PathView>) -> Set<PathView>
    decreases paths.len(),
{
    if paths.len() == 0 {
        selected
    } else {
        toggled(toggled_each(selected, paths.drop_last()), paths.last())
    }
}

/// The table with a row marked, or with none. Without a marked row it shows its beginning.
pub open spec fn table_selecting(table: TableCursor, row: Option<usize>) -> TableCursor {
    TableCursor {
        selected: row,
        offset: if row is None {
            0
        } else {
            table.offset
        },
    }
}

/// The last position in a list of the given length; the first one where the list is empty.
pub open spec fn last_position(length: nat) -> usize {
    if length == 0 {
        0
    } else {
        (length - 1) as usize
    }
}

impl AppView {
    /// What every step keeps: the rows are entries, the cursor is on a row where there is one,
    /// and the sizes can be added up.
    pub open spec fn wf(self) -> bool {
        &&& self.entries.len() <= usize::MAX
        &&& forall|row: int|
            0 <= row < self.filtered_indices.len() ==> #[trigger] self.filtered_indices[row]
                < self.entries.len()
        &&& self.cursor == 0 || self.cursor < self.filtered_indices.len()
        &&& self.mode matches AppMode::SortMenu { index } ==> index < SORT_FIELD_COUNT
        &&& self.animation_tick < SPINNER_LENGTH
        &&& size_total(self.entries) <= u64::MAX
        &&& original_total(self.entries) <= u64::MAX
    }

    /// What every step keeps besides: no directory stands on the list twice, and the rows stand in
    /// the order of the list.
    pub open spec fn distinct(self) -> bool {
        &&& distinct_paths(self.entries)
        &&& forall|left: int, right: int|
            0 <= left < right < self.filtered_indices.len() ==> #[trigger] self.filtered_indices[left]
                < #[trigger] self.filtered_indices[right]
    }

    /// What every step keeps of the rows: they are the entries that the search shows.
    pub open spec fn filtered(self) -> bool {
        self.filtered_indices == matching_indices(
            self.entries,
            self.search_query,
            self.entries.len(),
        )
    }

    /// What every step keeps of the total: the list is empty while a scan runs, and at every
    /// other moment the total is what the directories of the list take up.
    pub open spec fn settled(self) -> bool {
        if self.mode is Scanning {
            self.entries.len() == 0
        } else {
            self.scan_summary.total_bytes == effective_total(self.entries)
        }
    }

    /// What every step keeps of the state but for its rows and its cursor.
    pub open spec fn listable(self) -> bool {
        AppView { filtered_indices: Seq::empty(), cursor: 0, ..self }.wf()
    }

    /// The state of a program that has just been started.
    pub open spec fn initial(root: PathView) -> AppView {
        AppView {
            root,
            entries: Seq::empty(),
            filtered_indices: Seq::empty(),
            cursor: 0,
            selected: Set::empty(),
            search_query: Seq::empty(),
            sort_field: SortField::Size,
            sort_order: SortOrder::Desc,
            mode: AppMode::Scanning,
            scan_summary: SummaryView::initial(),
            scan_warnings: Seq::empty(),
            table_state: TableCursor { selected: None, offset: 0 },
            should_quit: false,
            animation_tick: 0,
        }
    }

    /// The entry under the cursor, where there is one.
    pub open spec fn current_entry(self) -> Option<EntryView> {
        if self.cursor < self.filtered_indices.len() && self.filtered_indices[self.cursor as int]
            < self.entries.len() {
            Some(self.entries[self.filtered_indices[self.cursor as int] as int])
        } else {
            None
        }
    }

    /// The paths of the rows that can be selected.
    pub open spec fn visible_paths(self) -> Seq<PathView> {
        selectable_paths(self.entries, self.filtered_indices)
    }

    /// The entries that are selected and can be.
    pub open spec fn selected_entries(self) -> Seq<EntryView> {
        self.entries.filter(
            |entry: EntryView| entry.selectable() && self.selected.contains(entry.target_path),
        )
    }

    /// The entries whose directories are gone.
    pub open spec fn deleted_entries(self) -> Seq<EntryView> {
        self.entries.filter(|entry: EntryView| entry.delete_status is Deleted)
    }

    /// The entries whose directories are not gone.
    pub open spec fn remaining_entries(self) -> Seq<EntryView> {
        self.entries.filter(|entry: EntryView| !(entry.delete_status is Deleted))
    }

    /// The entries whose directories are being removed.
    pub open spec fn deleting_entries(self) -> Seq<EntryView> {
        self.entries.filter(|entry: EntryView| entry.delete_status is Deleting)
    }

    /// Whether something on the screen moves by itself.
    pub open spec fn animated(self) -> bool {
        self.mode is Scanning || exists|index: int|
            0 <= index < self.entries.len() && (#[trigger] self.entries[index]).delete_status is Deleting
    }

    /// How many thousandths of a second are waited for a key: fewer where something moves.
    pub open spec fn waiting_millis(self) -> u64 {
        if self.animated() {
            100
        } else {
            250
        }
    }

    /// The number and the former sizes of the directories that are gone, where there are any.
    pub open spec fn cleaned(self) -> Option<(usize, u64)> {
        let deleted = self.deleted_entries();
        if deleted.len() == 0 {
            None
        } else {
            Some((deleted.len() as usize, original_total(deleted) as u64))
        }
    }

    /// The table marks the row under the cursor, or none where there is no row.
    pub open spec fn synced(self) -> AppView {
        AppView {
            table_state: table_selecting(
                self.table_state,
                if self.filtered_indices.len() == 0 {
                    None
                } else {
                    Some(self.cursor)
                },
            ),
            ..self
        }
    }

    /// The cursor on another row.
    pub open spec fn with_cursor(self, cursor: usize) -> AppView {
        AppView { cursor, ..self }.synced()
    }

    /// The entries sorted, the rows chosen by the search, and the cursor on a row.
    pub open spec fn recomputed(self) -> AppView {
        let entries = sorted_entries(self.entries, self.sort_field, self.sort_order);
        let filtered_indices = matching_indices(entries, self.search_query, entries.len());
        let last = last_position(filtered_indices.len());
        AppView { entries, filtered_indices, ..self }.with_cursor(
            if self.cursor < last {
                self.cursor
            } else {
                last
            },
        )
    }

    /// The cursor moved by a number of rows, down where it is positive, no further than to the
    /// first and the last row.
    pub open spec fn moved(self, delta: int) -> AppView {
        let last = last_position(self.filtered_indices.len());
        self.with_cursor(
            if self.filtered_indices.len() == 0 || self.cursor + delta < 0 {
                0
            } else if delta >= 0 && self.cursor + delta > last {
                last
            } else {
                (self.cursor + delta) as usize
            },
        )
    }

    /// A scan is started: the list is empty until it is done.
    pub open spec fn scanning(self) -> AppView {
        AppView {
            mode: AppMode::Scanning,
            entries: Seq::empty(),
            filtered_indices: Seq::empty(),
            cursor: 0,
            scan_summary: SummaryView::initial(),
            scan_warnings: Seq::empty(),
            ..self
        }
    }

    /// The entry under the cursor selected, or no longer selected. One that cannot be selected
    /// stays as it is.
    pub open spec fn with_current_toggled(self) -> AppView {
        match self.current_entry() {
            Some(entry) if entry.selectable() => AppView {
                selected: toggled(self.selected, entry.target_path),
                ..self
            },
            _ => self,
        }
    }

    /// All rows selected, or none of them where all were.
    pub open spec fn with_all_toggled(self) -> AppView {
        let visible = self.visible_paths().to_set();
        AppView {
            selected: if visible.subset_of(self.selected) {
                self.selected.difference(visible)
            } else {
                self.selected.union(visible)
            },
            ..self
        }
    }

    /// The selected rows no longer selected, and the others selected.
    pub open spec fn with_rows_inverted(self) -> AppView {
        AppView { selected: toggled_each(self.selected, self.visible_paths()), ..self }
    }

    /// Sorted by a field; by the same field, in the other direction.
    pub open spec fn sorted_by(self, field: SortField) -> AppView {
        if self.sort_field == field {
            AppView { sort_order: other_order(self.sort_order), ..self }.recomputed()
        } else {
            AppView {
                sort_field: field,
                sort_order: default_sort_order(field),
                ..self
            }.recomputed()
        }
    }

    /// The first entry with a path in another state.
    pub open spec fn with_status(self, path: PathView, status: StatusView) -> AppView {
        let at = index_of_path(self.entries, path);
        if at < self.entries.len() {
            AppView {
                entries: self.entries.update(
                    at,
                    EntryView { delete_status: status, ..self.entries[at] },
                ),
                ..self
            }
        } else {
            self
        }
    }

    /// The removal of the directory under the cursor started, where it can be.
    pub open spec fn deleting_current(self) -> (AppView, Option<CommandView>) {
        match self.current_entry() {
            Some(entry) if entry.selectable() => (
                self.with_status(entry.target_path, StatusView::Deleting),
                Some(CommandView::Delete { root: self.root, path: entry.target_path }),
            ),
            _ => (self, None),
        }
    }

    /// What a report makes of the state.
    pub open spec fn after_message(self, message: MessageView) -> AppView {
        match message {
            MessageView::ScanProgress { discovered, total_bytes, current_path } => AppView {
                scan_summary: SummaryView {
                    discovered,
                    total_bytes,
                    current_path: Some(current_path),
                    ..self.scan_summary
                },
                ..self
            },
            MessageView::ScanComplete { entries, warnings, elapsed } => {
                let known = entries.map_values(|entry: EntryView| entry.target_path).to_set();
                let filled = AppView {
                    entries,
                    scan_summary: SummaryView {
                        discovered: entries.len() as usize,
                        total_bytes: size_total(entries) as u64,
                        current_path: None,
                        elapsed,
                    },
                    scan_warnings: warnings,
                    selected: self.selected.intersect(known),
                    ..self
                };
                AppView { mode: AppMode::Browsing, ..filled.recomputed() }
            },
            MessageView::DeleteProgress { path, status } => self.after_delete(path, status),
        }
    }

    /// What the end of a removal makes of the state: the first entry with the path gets the
    /// status; one that is gone takes up no bytes and is no longer selected.
    pub open spec fn after_delete(self, path: PathView, status: StatusView) -> AppView {
        let at = index_of_path(self.entries, path);
        if at < self.entries.len() {
            let size_bytes = if status is Deleted {
                0
            } else {
                self.entries[at].size_bytes
            };
            let entries = self.entries.update(
                at,
                EntryView { size_bytes, delete_status: status, ..self.entries[at] },
            );
            AppView {
                entries,
                selected: if status is Deleted {
                    self.selected.remove(path)
                } else {
                    self.selected
                },
                scan_summary: SummaryView {
                    total_bytes: effective_total(entries) as u64,
                    ..self.scan_summary
                },
                ..self
            }
        } else {
            self
        }
    }

    /// What reports make of the state, one after the other.
    pub open spec fn after_messages(self, messages: Seq<MessageView>) -> AppView
        decreases messages.len(),
    {
        if messages.len() == 0 {
            self
        } else {
            self.after_messages(messages.drop_last()).after_message(messages.last())
        }
    }

    /// The state after a span of time since the spinner last moved: it moves where something on
    /// the screen moves and a tenth of a second has passed.
    pub open spec fn after_time(self, span: TimeSpan) -> AppView {
        if self.animated() && tick_is_due(span) {
            AppView {
                animation_tick: ((self.animation_tick + 1) % SPINNER_LENGTH as int) as usize,
                ..self
            }
        } else {
            self
        }
    }

    /// The state in another mode.
    pub open spec fn in_mode(self, mode: AppMode) -> AppView {
        AppView { mode, ..self }
    }

    /// The state of a program that is to end.
    pub open spec fn quitting(self) -> AppView {
        AppView { should_quit: true, ..self }
    }

    /// The state after another query was entered.
    pub open spec fn searching_for(self, query: Seq<char>) -> AppView {
        AppView { search_query: query, ..self }.recomputed()
    }

    /// What a key makes of the list.
    pub open spec fn after_browsing_key(self, key: KeyEvent) -> (AppView, Option<CommandView>) {
        match key.code {
            KeyCode::Down => (self.moved(1), None),
            KeyCode::Up => (self.moved(-1), None),
            KeyCode::Char(character) => {
                if character == 'q' {
                    (self.quitting(), None)
                } else if character == 'j' {
                    (self.moved(1), None)
                } else if character == 'k' {
                    (self.moved(-1), None)
                } else if character == 'g' {
                    (self.with_cursor(0), None)
                } else if character == 'G' {
                    (self.with_cursor(last_position(self.filtered_indices.len())), None)
                } else if character == ' ' {
                    (self.with_current_toggled(), None)
                } else if character == 'a' {
                    (self.with_all_toggled(), None)
                } else if character == 'i' {
                    (self.with_rows_inverted(), None)
                } else if character == '/' {
                    (self.in_mode(AppMode::Searching), None)
                } else if character == 's' {
                    (
                        self.in_mode(
                            AppMode::SortMenu { index: sort_field_index(self.sort_field) },
                        ),
                        None,
                    )
                } else if character == 'd' {
                    self.deleting_current()
                } else if character == 'r' {
                    (self.scanning(), Some(CommandView::Scan { root: self.root }))
                } else if character == '?' {
                    (self.in_mode(AppMode::Help), None)
                } else {
                    (self, None)
                }
            },
            _ => (self, None),
        }
    }

    /// What a key makes of the search.
    pub open spec fn after_search_key(self, key: KeyEvent) -> AppView {
        match key.code {
            KeyCode::Esc => self.in_mode(AppMode::Browsing),
            KeyCode::Enter => self.in_mode(AppMode::Browsing),
            KeyCode::Backspace => self.searching_for(
                if self.search_query.len() == 0 {
                    self.search_query
                } else {
                    self.search_query.drop_last()
                },
            ),
            KeyCode::Char(character) => {
                if key.control || key.alt {
                    self
                } else {
                    self.searching_for(self.search_query.push(character))
                }
            },
            _ => self,
        }
    }

    /// What a key makes of the menu of fields, with the mark on the field at `index`.
    pub open spec fn after_sort_menu_key(self, key: KeyEvent, index: usize) -> AppView {
        let count = SORT_FIELD_COUNT as int;
        let down = self.in_mode(AppMode::SortMenu { index: ((index + 1) % count) as usize });
        let up = self.in_mode(
            AppMode::SortMenu { index: ((index + count - 1) % count) as usize },
        );
        match key.code {
            KeyCode::Esc => self.in_mode(AppMode::Browsing),
            KeyCode::Down => down,
            KeyCode::Up => up,
            KeyCode::Enter => self.sorted_by(sort_fields()[index as int]).in_mode(
                AppMode::Browsing,
            ),
            KeyCode::Char(character) => {
                if character == 'j' {
                    down
                } else if character == 'k' {
                    up
                } else if character == 's' {
                    AppView { sort_order: other_order(self.sort_order), ..self }.recomputed()
                } else {
                    self
                }
            },
            _ => self,
        }
    }

    /// What a key makes of the state, and the work that it starts.
    pub open spec fn after_key(self, key: KeyEvent) -> (AppView, Option<CommandView>) {
        if key.control && key.code == KeyCode::Char('c') {
            (self.quitting(), None)
        } else {
            match self.mode {
                AppMode::Scanning => if key.code == KeyCode::Char('q') {
                    (self.quitting(), None)
                } else {
                    (self, None)
                },
                AppMode::Browsing => self.after_browsing_key(key),
                AppMode::Searching => (self.after_search_key(key), None),
                AppMode::SortMenu { index } => (self.after_sort_menu_key(key, index), None),
                AppMode::Help => if key.code == KeyCode::Esc || key.code == KeyCode::Char('?') {
                    (self.in_mode(AppMode::Browsing), None)
                } else {
                    (self, None)
                },
            }
        }
    }
}

/// Whether a span of time is at least a tenth of a second.
pub open spec fn tick_is_due(span: TimeSpan) -> bool {
    span.secs > 0 || span.nanos >= 100_000_000
}

impl SummaryView {
    /// What is known of a scan that has just been started.
    pub open spec fn initial() -> SummaryView {
        SummaryView {
            discovered: 0,
            total_bytes: 0,
            current_path: None,
            elapsed: TimeSpan { secs: 0, nanos: 0 },
        }
    }
}

} // verus!
