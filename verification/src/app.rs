//! The state of the program, and how keys and reports change it.

use crate::consistency::{
    after_key_keeps_wf, after_message_keeps_wf, recomputed_keeps_wf, with_status_keeps_wf,
};
use crate::entry::{
    entry_matches_query, entry_views, DeleteStatus, EntryView, SortField, SortOrder, StatusView,
    TargetEntry, SORT_FIELD_COUNT,
};
use crate::key::{KeyCode, KeyEvent};
use crate::message::{
    command_view, message_views, text_views, Command, CommandView, WorkerMessage,
};
use crate::model::{
    index_of_path, matching_indices, selectable_paths, tick_is_due, toggled, toggled_each, AppMode,
    AppView, SummaryView, TableCursor, SPINNER_LENGTH,
};
use crate::path::FilePath;
use crate::path_set::{path_views, PathSet};
use crate::sort::sort_entries;
use crate::time::TimeSpan;
use crate::totals::{
    add_effective, add_sizes, effective_total, effective_within_size, filter_step, original_total,
    totals_grow, totals_of_some, totals_update,
};
use vstd::prelude::*;

verus! {

/// What is known of a scan.
pub struct ScanSummary {
    pub discovered: usize,
    pub total_bytes: u64,
    pub current_path: Option<FilePath>,
    pub elapsed: TimeSpan,
}

impl View for ScanSummary {
    type V = SummaryView;

    open spec fn view(&self) -> SummaryView {
        SummaryView {
            discovered: self.discovered,
            total_bytes: self.total_bytes,
            current_path: match self.current_path {
                Some(path) => Some(path@),
                None => None,
            },
            elapsed: self.elapsed,
        }
    }
}

impl Default for ScanSummary {
    /// What is known of a scan that has just been started.
    fn default() -> (result: Self)
        ensures
            result@ == SummaryView::initial(),
    {
        ScanSummary {
            discovered: 0,
            total_bytes: 0,
            current_path: None,
            elapsed: TimeSpan { secs: 0, nanos: 0 },
        }
    }
}

/// The state of the program.
pub struct App {
    pub root: FilePath,
    pub entries: Vec<TargetEntry>,
    pub filtered_indices: Vec<usize>,
    pub cursor: usize,
    pub selected: PathSet,
    pub search_query: String,
    pub sort_field: SortField,
    pub sort_order: SortOrder,
    pub mode: AppMode,
    pub scan_summary: ScanSummary,
    pub scan_warnings: Vec<String>,
    pub table_state: TableCursor,
    pub should_quit: bool,
    pub animation_tick: usize,
}

impl View for App {
    type V = AppView;

    open spec fn view(&self) -> AppView {
        AppView {
            root: self.root@,
            entries: entry_views(self.entries@),
            filtered_indices: self.filtered_indices@,
            cursor: self.cursor,
            selected: self.selected@,
            search_query: self.search_query@,
            sort_field: self.sort_field,
            sort_order: self.sort_order,
            mode: self.mode,
            scan_summary: self.scan_summary@,
            scan_warnings: text_views(self.scan_warnings@),
            table_state: self.table_state,
            should_quit: self.should_quit,
            animation_tick: self.animation_tick,
        }
    }
}

impl App {
    /// The state of a program that has just been started.
    pub fn new(root: FilePath) -> (result: Self)
        ensures
            result@ == AppView::initial(root@),
            result@.wf(),
    {
        let result = App {
            root,
            entries: Vec::new(),
            filtered_indices: Vec::new(),
            cursor: 0,
            selected: PathSet::new(),
            search_query: String::new(),
            sort_field: SortField::Size,
            sort_order: SortOrder::Desc,
            mode: AppMode::Scanning,
            scan_summary: ScanSummary::default(),
            scan_warnings: Vec::new(),
            table_state: TableCursor { selected: None, offset: 0 },
            should_quit: false,
            animation_tick: 0,
        };
        assert(result@ =~= AppView::initial(root@));
        result
    }

    /// Starts a scan: empties the list and asks for the work.
    pub fn start_scan(&mut self) -> (result: Command)
        ensures
            final(self)@ == old(self)@.scanning(),
            old(self)@.wf() ==> final(self)@.wf(),
            result@ == (CommandView::Scan { root: old(self)@.root }),
    {
        self.mode = AppMode::Scanning;
        self.entries.clear();
        self.filtered_indices.clear();
        self.cursor = 0;
        self.scan_summary = ScanSummary::default();
        self.scan_warnings.clear();
        assert(self@ =~= old(self)@.scanning());
        Command::Scan { root: self.root.clone() }
    }

    /// Makes the table mark the row under the cursor, or none where there is no row.
    pub fn sync_table_state(&mut self)
        ensures
            final(self)@ == old(self)@.synced(),
            old(self)@.wf() ==> final(self)@.wf(),
    {
        if self.filtered_indices.is_empty() {
            self.table_state = TableCursor { selected: None, offset: 0 };
        } else {
            self.table_state = TableCursor {
                selected: Some(self.cursor),
                offset: self.table_state.offset,
            };
        }
    }

    /// Finds the rows that the search shows.
    fn find_rows(&self) -> (result: Vec<usize>)
        ensures
            result@ == matching_indices(self@.entries, self@.search_query, self@.entries.len()),
    {
        let mut result: Vec<usize> = Vec::new();
        let mut index: usize = 0;
        while index < self.entries.len()
            invariant
                index <= self.entries@.len(),
                result@ == matching_indices(self@.entries, self@.search_query, index as nat),
            decreases self.entries@.len() - index,
        {
            assert(self@.entries[index as int] == self.entries@[index as int]@);
            if entry_matches_query(&self.entries[index], self.search_query.as_str()) {
                result.push(index);
            }
            index += 1;
        }
        result
    }

    /// Sorts the entries, chooses the rows by the search, and keeps the cursor on a row.
    pub fn recompute_view(&mut self)
        ensures
            final(self)@ == old(self)@.recomputed(),
            old(self)@.listable() ==> final(self)@.wf(),
    {
        proof {
            if self@.listable() {
                recomputed_keeps_wf(self@);
            }
        }
        let mut entries: Vec<TargetEntry> = Vec::new();
        std::mem::swap(&mut entries, &mut self.entries);
        self.entries = sort_entries(entries, self.sort_field, self.sort_order);
        self.filtered_indices = self.find_rows();
        let last: usize = self.filtered_indices.len().saturating_sub(1);
        if self.cursor >= last {
            self.cursor = last;
        }
        self.sync_table_state();
    }

    /// Moves the cursor by a number of rows, down where it is positive, no further than to the
    /// first and the last row.
    pub fn move_cursor(&mut self, delta: isize)
        ensures
            final(self)@ == old(self)@.moved(delta as int),
            old(self)@.wf() ==> final(self)@.wf(),
    {
        if self.filtered_indices.is_empty() {
            self.cursor = 0;
            self.sync_table_state();
            return;
        }
        let last: usize = self.filtered_indices.len() - 1;
        let target: i128 = self.cursor as i128 + delta as i128;
        self.cursor = if target < 0 {
            0
        } else if delta >= 0 && target > last as i128 {
            last
        } else {
            target as usize
        };
        self.sync_table_state();
    }

    /// The entry under the cursor, where there is one.
    pub fn current_entry(&self) -> (result: Option<&TargetEntry>)
        ensures
            match (result, self@.current_entry()) {
                (Some(found), Some(entry)) => found@ == entry,
                (None, None) => true,
                _ => false,
            },
    {
        if self.cursor >= self.filtered_indices.len() {
            return None;
        }
        let index: usize = self.filtered_indices[self.cursor];
        if index >= self.entries.len() {
            return None;
        }
        Some(&self.entries[index])
    }

    /// The paths of the rows that can be selected.
    fn find_visible_paths(&self) -> (result: Vec<FilePath>)
        requires
            self@.wf(),
        ensures
            path_views(result@) == self@.visible_paths(),
    {
        let ghost rows = self@.filtered_indices;
        let mut result: Vec<FilePath> = Vec::new();
        let mut row: usize = 0;
        assert(path_views(result@) =~= selectable_paths(self@.entries, rows.take(0)));
        while row < self.filtered_indices.len()
            invariant
                self@.wf(),
                rows == self.filtered_indices@,
                row <= rows.len(),
                path_views(result@) == selectable_paths(self@.entries, rows.take(row as int)),
            decreases rows.len() - row,
        {
            let index: usize = self.filtered_indices[row];
            assert(self@.filtered_indices[row as int] < self@.entries.len());
            assert(self@.entries[index as int] == self.entries@[index as int]@);
            let ghost before = path_views(result@);
            let entry = &self.entries[index];
            if entry.is_selectable() {
                result.push(entry.target_path.clone());
                assert(path_views(result@) =~= before.push(entry@.target_path));
            }
            row += 1;
            assert(rows.take(row as int).drop_last() =~= rows.take(row - 1));
        }
        assert(rows.take(rows.len() as int) =~= rows);
        result
    }

    /// Selects the entry under the cursor, or no longer selects it. One that cannot be selected
    /// stays as it is.
    pub fn toggle_current_selection(&mut self)
        ensures
            final(self)@ == old(self)@.with_current_toggled(),
            old(self)@.wf() ==> final(self)@.wf(),
    {
        let path = match self.current_entry() {
            None => {
                return;
            },
            Some(entry) => {
                if !entry.is_selectable() {
                    return;
                }
                entry.target_path.clone()
            },
        };
        toggle_path(&mut self.selected, path);
    }

    /// Selects all rows, or none of them where all were.
    pub fn toggle_all_filtered(&mut self)
        requires
            old(self)@.wf(),
        ensures
            final(self)@ == old(self)@.with_all_toggled(),
            final(self)@.wf(),
    {
        let visible = self.find_visible_paths();
        let ghost paths = path_views(visible@);
        let ghost before = self.selected@;
        let mut all_selected = true;
        let mut index: usize = 0;
        while index < visible.len()
            invariant
                index <= visible@.len(),
                paths == path_views(visible@),
                before == self.selected@,
                self@ == old(self)@,
                all_selected == (forall|earlier: int|
                    0 <= earlier < index ==> before.contains(#[trigger] paths[earlier])),
            decreases visible@.len() - index,
        {
            assert(paths[index as int] == visible@[index as int]@);
            if !self.selected.contains(&visible[index]) {
                all_selected = false;
            }
            index += 1;
        }
        proof {
            if all_selected {
                assert(paths.to_set().subset_of(before));
            } else {
                let missing = choose|earlier: int|
                    0 <= earlier < paths.len() && !before.contains(#[trigger] paths[earlier]);
                assert(paths.contains(paths[missing]));
                assert(paths.to_set().contains(paths[missing]));
            }
        }
        index = 0;
        assert(self.selected@ =~= if all_selected {
            before.difference(paths.take(0).to_set())
        } else {
            before.union(paths.take(0).to_set())
        });
        while index < visible.len()
            invariant
                index <= visible@.len(),
                paths == path_views(visible@),
                self@ == (AppView { selected: self.selected@, ..old(self)@ }),
                self.selected@ == if all_selected {
                    before.difference(paths.take(index as int).to_set())
                } else {
                    before.union(paths.take(index as int).to_set())
                },
            decreases visible@.len() - index,
        {
            assert(paths[index as int] == visible@[index as int]@);
            if all_selected {
                self.selected.remove(&visible[index]);
            } else {
                self.selected.insert(visible[index].clone());
            }
            index += 1;
            proof {
                let shorter = paths.take(index - 1);
                assert(paths.take(index as int) =~= shorter.push(paths[index - 1]));
                shorter.lemma_push_to_set_commute(paths[index - 1]);
                assert(self.selected@ =~= if all_selected {
                    before.difference(paths.take(index as int).to_set())
                } else {
                    before.union(paths.take(index as int).to_set())
                });
            }
        }
        assert(paths.take(paths.len() as int) =~= paths);
    }

    /// Selects the rows that are not selected, and no longer selects the others.
    pub fn invert_filtered_selection(&mut self)
        requires
            old(self)@.wf(),
        ensures
            final(self)@ == old(self)@.with_rows_inverted(),
            final(self)@.wf(),
    {
        let visible = self.find_visible_paths();
        let ghost paths = path_views(visible@);
        let ghost before = self.selected@;
        let mut index: usize = 0;
        while index < visible.len()
            invariant
                index <= visible@.len(),
                paths == path_views(visible@),
                self@ == (AppView { selected: self.selected@, ..old(self)@ }),
                self.selected@ == toggled_each(before, paths.take(index as int)),
            decreases visible@.len() - index,
        {
            assert(paths[index as int] == visible@[index as int]@);
            toggle_path(&mut self.selected, visible[index].clone());
            index += 1;
            assert(paths.take(index as int).drop_last() =~= paths.take(index - 1));
        }
        assert(paths.take(paths.len() as int) =~= paths);
    }

    /// Sorts by a field; by the same field, in the other direction.
    pub fn apply_sort_field(&mut self, field: SortField)
        ensures
            final(self)@ == old(self)@.sorted_by(field),
            old(self)@.listable() ==> final(self)@.wf(),
    {
        if self.sort_field == field {
            self.sort_order = self.sort_order.toggle();
        } else {
            self.sort_field = field;
            self.sort_order = field.default_order();
        }
        self.recompute_view();
    }

    /// The position of the first entry with a path.
    fn find_entry(&self, path: &FilePath) -> (result: Option<usize>)
        ensures
            match result {
                Some(at) => at == index_of_path(self@.entries, path@) && at < self@.entries.len(),
                None => index_of_path(self@.entries, path@) == self@.entries.len(),
            },
    {
        let ghost all = self@.entries;
        let mut index: usize = 0;
        assert(all.skip(0) =~= all);
        while index < self.entries.len()
            invariant
                index <= self.entries@.len(),
                all == self@.entries,
                index_of_path(all, path@) == index + index_of_path(all.skip(index as int), path@),
            decreases self.entries@.len() - index,
        {
            assert(all.skip(index as int)[0] == self.entries@[index as int]@);
            if self.entries[index].target_path.same(path) {
                return Some(index);
            }
            index += 1;
            assert(all.skip(index - 1).drop_first() =~= all.skip(index as int));
        }
        None
    }

    /// Starts the removal of the directory under the cursor, where it is neither gone nor being
    /// removed already.
    pub fn start_delete_current(&mut self) -> (result: Option<Command>)
        ensures
            (final(self)@, command_view(result)) == old(self)@.deleting_current(),
            old(self)@.wf() ==> final(self)@.wf(),
    {
        let path = match self.current_entry() {
            None => {
                return None;
            },
            Some(entry) => {
                if !entry.is_selectable() {
                    return None;
                }
                entry.target_path.clone()
            },
        };
        proof {
            if self@.wf() {
                with_status_keeps_wf(self@, path@, StatusView::Deleting);
            }
        }
        if let Some(at) = self.find_entry(&path) {
            let ghost before = self@;
            self.entries[at].delete_status = DeleteStatus::Deleting;
            assert(self@.entries =~= before.entries.update(
                at as int,
                EntryView { delete_status: StatusView::Deleting, ..before.entries[at as int] },
            ));
        }
        Some(Command::Delete { root: self.root.clone(), path })
    }

    /// The entries that are selected and can be.
    pub fn selected_entries(&self) -> (result: Vec<&TargetEntry>)
        ensures
            result@.map_values(|entry: &TargetEntry| entry@) == self@.selected_entries(),
    {
        let ghost all = self@.entries;
        let ghost chosen = |entry: EntryView|
            entry.selectable() && self@.selected.contains(entry.target_path);
        let mut result: Vec<&TargetEntry> = Vec::new();
        let mut index: usize = 0;
        assert(result@.map_values(|entry: &TargetEntry| entry@) =~= all.take(0).filter(chosen)) by {
            reveal(Seq::filter);
        }
        while index < self.entries.len()
            invariant
                index <= self.entries@.len(),
                all == self@.entries,
                chosen == (|entry: EntryView|
                    entry.selectable() && self@.selected.contains(entry.target_path)),
                result@.map_values(|entry: &TargetEntry| entry@) == all.take(index as int).filter(
                    chosen,
                ),
            decreases self.entries@.len() - index,
        {
            let entry = &self.entries[index];
            assert(all[index as int] == entry@);
            let ghost before = result@.map_values(|entry: &TargetEntry| entry@);
            if entry.is_selectable() && self.selected.contains(&entry.target_path) {
                result.push(entry);
                assert(result@.map_values(|entry: &TargetEntry| entry@) =~= before.push(entry@));
            }
            proof {
                filter_step(all, index as int, chosen);
            }
            index += 1;
        }
        assert(all.take(all.len() as int) =~= all);
        result
    }

    /// The bytes that the selected directories take up.
    pub fn selected_total_bytes(&self) -> (result: u64)
        requires
            self@.wf(),
        ensures
            result == effective_total(self@.selected_entries()),
    {
        let selected = self.selected_entries();
        let ghost all = selected@.map_values(|entry: &TargetEntry| entry@);
        proof {
            let chosen = |entry: EntryView|
                entry.selectable() && self@.selected.contains(entry.target_path);
            totals_of_some(self@.entries, chosen);
            effective_within_size(self@.entries);
        }
        let mut result: u64 = 0;
        let mut index: usize = 0;
        while index < selected.len()
            invariant
                index <= selected@.len(),
                all == selected@.map_values(|entry: &TargetEntry| entry@),
                effective_total(all) <= u64::MAX,
                result == effective_total(all.take(index as int)),
            decreases selected@.len() - index,
        {
            proof {
                totals_grow(all, index + 1);
                assert(all.take(index + 1).drop_last() =~= all.take(index as int));
                assert(all[index as int] == selected@[index as int]@);
            }
            result += selected[index].effective_size_bytes();
            index += 1;
        }
        assert(all.take(all.len() as int) =~= all);
        result
    }

    /// The bytes that all directories of the list take up.
    pub fn cached_total_bytes(&self) -> (result: u64)
        requires
            self@.wf(),
        ensures
            result == effective_total(self@.entries),
    {
        proof {
            effective_within_size(self@.entries);
        }
        add_effective(&self.entries)
    }

    /// The number of directories that are not gone.
    pub fn remaining_target_count(&self) -> (result: usize)
        ensures
            result == self@.remaining_entries().len(),
    {
        let ghost all = self@.entries;
        let ghost chosen = |entry: EntryView| !(entry.delete_status is Deleted);
        let mut result: usize = 0;
        let mut index: usize = 0;
        assert(all.take(0).filter(chosen).len() == 0) by {
            reveal(Seq::filter);
        }
        while index < self.entries.len()
            invariant
                index <= self.entries@.len(),
                all == self@.entries,
                chosen == (|entry: EntryView| !(entry.delete_status is Deleted)),
                result <= index,
                result == all.take(index as int).filter(chosen).len(),
            decreases self.entries@.len() - index,
        {
            assert(all[index as int] == self.entries@[index as int]@);
            if !self.entries[index].delete_status.is_deleted() {
                result += 1;
            }
            proof {
                filter_step(all, index as int, chosen);
            }
            index += 1;
        }
        assert(all.take(all.len() as int) =~= all);
        result
    }

    /// The number of directories that are being removed.
    pub fn deleting_count(&self) -> (result: usize)
        ensures
            result == self@.deleting_entries().len(),
    {
        let ghost all = self@.entries;
        let ghost chosen = |entry: EntryView| entry.delete_status is Deleting;
        let mut result: usize = 0;
        let mut index: usize = 0;
        assert(all.take(0).filter(chosen).len() == 0) by {
            reveal(Seq::filter);
        }
        while index < self.entries.len()
            invariant
                index <= self.entries@.len(),
                all == self@.entries,
                chosen == (|entry: EntryView| entry.delete_status is Deleting),
                result <= index,
                result == all.take(index as int).filter(chosen).len(),
            decreases self.entries@.len() - index,
        {
            assert(all[index as int] == self.entries@[index as int]@);
            if self.entries[index].delete_status.is_deleting() {
                result += 1;
            }
            proof {
                filter_step(all, index as int, chosen);
            }
            index += 1;
        }
        assert(all.take(all.len() as int) =~= all);
        result
    }

    /// The number and the former sizes of the directories that are gone, where there are any.
    pub fn cleaned_session_summary(&self) -> (result: Option<(usize, u64)>)
        requires
            self@.wf(),
        ensures
            result == self@.cleaned(),
    {
        let ghost all = self@.entries;
        let ghost chosen = |entry: EntryView| entry.delete_status is Deleted;
        let mut count: usize = 0;
        let mut bytes: u64 = 0;
        let mut index: usize = 0;
        assert(all.take(0).filter(chosen) =~= Seq::<EntryView>::empty()) by {
            reveal(Seq::filter);
        }
        while index < self.entries.len()
            invariant
                index <= self.entries@.len(),
                all == self@.entries,
                original_total(all) <= u64::MAX,
                chosen == (|entry: EntryView| entry.delete_status is Deleted),
                count <= index,
                count == all.take(index as int).filter(chosen).len(),
                bytes == original_total(all.take(index as int).filter(chosen)),
            decreases self.entries@.len() - index,
        {
            assert(all[index as int] == self.entries@[index as int]@);
            proof {
                filter_step(all, index as int, chosen);
                totals_of_some(all.take(index + 1), chosen);
                totals_grow(all, index + 1);
                let before = all.take(index as int).filter(chosen);
                assert(before.push(all[index as int]).drop_last() =~= before);
            }
            if self.entries[index].delete_status.is_deleted() {
                count += 1;
                bytes += self.entries[index].original_size_bytes;
            }
            index += 1;
        }
        assert(all.take(all.len() as int) =~= all);
        if count == 0 {
            None
        } else {
            Some((count, bytes))
        }
    }

    /// Tells whether something on the screen moves by itself.
    pub fn needs_animation(&self) -> (result: bool)
        ensures
            result == self@.animated(),
    {
        if let AppMode::Scanning = self.mode {
            return true;
        }
        let mut index: usize = 0;
        while index < self.entries.len()
            invariant
                index <= self.entries@.len(),
                forall|earlier: int|
                    0 <= earlier < index ==> !((#[trigger] self@.entries[earlier]).delete_status is Deleting),
            decreases self.entries@.len() - index,
        {
            assert(self@.entries[index as int] == self.entries@[index as int]@);
            if self.entries[index].delete_status.is_deleting() {
                return true;
            }
            index += 1;
        }
        false
    }

    /// How long to wait for a key before the screen is drawn again, in milliseconds.
    pub fn poll_timeout_millis(&self) -> (result: u64)
        ensures
            result == if self@.animated() {
                100u64
            } else {
                250u64
            },
            result == self@.waiting_millis(),
    {
        if self.needs_animation() {
            100
        } else {
            250
        }
    }

    /// Moves the spinner where something on the screen moves and a tenth of a second has passed
    /// since it last moved. Tells whether it was moved.
    pub fn advance_animation(&mut self, since_last: TimeSpan) -> (result: bool)
        requires
            old(self)@.wf(),
        ensures
            final(self)@ == old(self)@.after_time(since_last),
            final(self)@.wf(),
            result == (old(self)@.animated() && tick_is_due(since_last)),
    {
        if self.needs_animation() && (since_last.secs > 0 || since_last.nanos >= 100_000_000) {
            self.animation_tick = (self.animation_tick + 1) % SPINNER_LENGTH;
            true
        } else {
            false
        }
    }

    /// Takes a key, and says which work it starts.
    pub fn handle_key(&mut self, key: KeyEvent) -> (result: Option<Command>)
        requires
            old(self)@.wf(),
        ensures
            (final(self)@, command_view(result)) == old(self)@.after_key(key),
            final(self)@.wf(),
    {
        proof {
            after_key_keeps_wf(self@, key);
        }
        if key.control {
            if let KeyCode::Char('c') = key.code {
                self.should_quit = true;
                return None;
            }
        }
        match self.mode {
            AppMode::Scanning => {
                if let KeyCode::Char('q') = key.code {
                    self.should_quit = true;
                }
                None
            },
            AppMode::Browsing => self.handle_browsing_key(key),
            AppMode::Searching => {
                self.handle_search_key(key);
                None
            },
            AppMode::SortMenu { index } => {
                self.handle_sort_menu_key(key, index);
                None
            },
            AppMode::Help => {
                match key.code {
                    KeyCode::Esc | KeyCode::Char('?') => {
                        self.mode = AppMode::Browsing;
                    },
                    _ => {},
                }
                None
            },
        }
    }

    /// Takes a key for the list.
    pub fn handle_browsing_key(&mut self, key: KeyEvent) -> (result: Option<Command>)
        requires
            old(self)@.wf(),
        ensures
            (final(self)@, command_view(result)) == old(self)@.after_browsing_key(key),
            final(self)@.wf(),
    {
        match key.code {
            KeyCode::Char('q') => {
                self.should_quit = true;
            },
            KeyCode::Down | KeyCode::Char('j') => {
                self.move_cursor(1);
            },
            KeyCode::Up | KeyCode::Char('k') => {
                self.move_cursor(-1);
            },
            KeyCode::Char('g') => {
                self.cursor = 0;
                self.sync_table_state();
            },
            KeyCode::Char('G') => {
                self.cursor = self.filtered_indices.len().saturating_sub(1);
                self.sync_table_state();
            },
            KeyCode::Char(' ') => {
                self.toggle_current_selection();
            },
            KeyCode::Char('a') => {
                self.toggle_all_filtered();
            },
            KeyCode::Char('i') => {
                self.invert_filtered_selection();
            },
            KeyCode::Char('/') => {
                self.mode = AppMode::Searching;
            },
            KeyCode::Char('s') => {
                self.mode = AppMode::SortMenu { index: self.sort_field.index() };
            },
            KeyCode::Char('d') => {
                return self.start_delete_current();
            },
            KeyCode::Char('r') => {
                return Some(self.start_scan());
            },
            KeyCode::Char('?') => {
                self.mode = AppMode::Help;
            },
            _ => {},
        }
        None
    }

    /// Takes a key for the search.
    pub fn handle_search_key(&mut self, key: KeyEvent)
        ensures
            final(self)@ == old(self)@.after_search_key(key),
            old(self)@.wf() ==> final(self)@.wf(),
    {
        match key.code {
            KeyCode::Esc | KeyCode::Enter => {
                self.mode = AppMode::Browsing;
            },
            KeyCode::Backspace => {
                self.search_query.pop();
                self.recompute_view();
            },
            KeyCode::Char(character) => {
                if !key.control && !key.alt {
                    self.search_query.push(character);
                    self.recompute_view();
                }
            },
            _ => {},
        }
    }

    /// Takes a key for the menu of fields, with the mark on the field at `index`.
    pub fn handle_sort_menu_key(&mut self, key: KeyEvent, index: usize)
        requires
            index < SORT_FIELD_COUNT,
        ensures
            final(self)@ == old(self)@.after_sort_menu_key(key, index),
            old(self)@.wf() ==> final(self)@.wf(),
    {
        match key.code {
            KeyCode::Esc => {
                self.mode = AppMode::Browsing;
            },
            KeyCode::Down | KeyCode::Char('j') => {
                self.mode = AppMode::SortMenu { index: (index + 1) % SORT_FIELD_COUNT };
            },
            KeyCode::Up | KeyCode::Char('k') => {
                self.mode = AppMode::SortMenu {
                    index: if index == 0 {
                        SORT_FIELD_COUNT - 1
                    } else {
                        index - 1
                    },
                };
            },
            KeyCode::Char('s') => {
                self.sort_order = self.sort_order.toggle();
                self.recompute_view();
            },
            KeyCode::Enter => {
                self.apply_sort_field(SortField::at(index));
                self.mode = AppMode::Browsing;
            },
            _ => {},
        }
    }

    /// The paths of all entries.
    fn known_paths(&self) -> (result: PathSet)
        ensures
            result@ == self@.entries.map_values(|entry: EntryView| entry.target_path).to_set(),
    {
        let ghost paths = self@.entries.map_values(|entry: EntryView| entry.target_path);
        let mut result = PathSet::new();
        let mut index: usize = 0;
        assert(result@ =~= paths.take(0).to_set());
        while index < self.entries.len()
            invariant
                index <= self.entries@.len(),
                paths == self@.entries.map_values(|entry: EntryView| entry.target_path),
                result@ == paths.take(index as int).to_set(),
            decreases self.entries@.len() - index,
        {
            assert(paths[index as int] == self.entries@[index as int]@.target_path);
            result.insert(self.entries[index].target_path.clone());
            proof {
                assert(paths.take(index + 1) =~= paths.take(index as int).push(
                    paths[index as int],
                ));
                paths.take(index as int).lemma_push_to_set_commute(paths[index as int]);
            }
            index += 1;
        }
        assert(paths.take(paths.len() as int) =~= paths);
        result
    }

    /// Takes a report of the work on the file system.
    pub fn handle_worker_message(&mut self, message: WorkerMessage)
        requires
            old(self)@.wf(),
            message@.fits(),
        ensures
            final(self)@ == old(self)@.after_message(message@),
            final(self)@.wf(),
    {
        let ghost report = message@;
        match message {
            WorkerMessage::ScanProgress { discovered, total_bytes, current_path } => {
                self.scan_summary.discovered = discovered;
                self.scan_summary.total_bytes = total_bytes;
                self.scan_summary.current_path = Some(current_path);
            },
            WorkerMessage::ScanComplete { entries, warnings, elapsed } => {
                let discovered: usize = entries.len();
                proof {
                    after_message_keeps_wf(self@, report);
                }
                self.entries = entries;
                self.scan_summary = ScanSummary {
                    discovered,
                    total_bytes: add_sizes(&self.entries),
                    current_path: None,
                    elapsed,
                };
                self.scan_warnings = warnings;
                let known = self.known_paths();
                self.selected.keep_known(&known);
                self.recompute_view();
                self.mode = AppMode::Browsing;
            },
            WorkerMessage::DeleteProgress { path, status } => {
                proof {
                    after_message_keeps_wf(self@, report);
                }
                if let Some(at) = self.find_entry(&path) {
                    let ghost before = self@;
                    if status.is_deleted() {
                        self.entries[at].size_bytes = 0;
                        self.selected.remove(&path);
                    }
                    self.entries[at].delete_status = status;
                    proof {
                        let entry = EntryView {
                            size_bytes: if status@ is Deleted {
                                0
                            } else {
                                before.entries[at as int].size_bytes
                            },
                            delete_status: status@,
                            ..before.entries[at as int]
                        };
                        assert(self@.entries =~= before.entries.update(at as int, entry));
                        totals_update(before.entries, at as int, entry);
                        effective_within_size(self@.entries);
                    }
                    self.scan_summary.total_bytes = add_effective(&self.entries);
                }
            },
        }
    }

    /// Takes the reports that have come in, one after the other.
    pub fn drain_worker_messages(&mut self, messages: Vec<WorkerMessage>)
        requires
            old(self)@.wf(),
            forall|index: int|
                0 <= index < messages@.len() ==> (#[trigger] messages@[index])@.fits(),
        ensures
            final(self)@ == old(self)@.after_messages(message_views(messages@)),
            final(self)@.wf(),
    {
        let ghost all = message_views(messages@);
        let ghost start = self@;
        for message in it: messages
            invariant
                it.seq() == messages@,
                all == message_views(messages@),
                forall|index: int|
                    0 <= index < messages@.len() ==> (#[trigger] messages@[index])@.fits(),
                self@.wf(),
                self@ == start.after_messages(all.take(it.index())),
        {
            proof {
                assert(all[it.index()] == message@);
                assert(all.take(it.index() + 1).drop_last() =~= all.take(it.index()));
            }
            self.handle_worker_message(message);
        }
        assert(all.take(all.len() as int) =~= all);
    }
}

/// Puts a path into a set where it is not there, and takes it out where it is.
fn toggle_path(selected: &mut PathSet, path: FilePath)
    ensures
        final(selected)@ == toggled(old(selected)@, path@),
{
    if selected.contains(&path) {
        selected.remove(&path);
    } else {
        selected.insert(path);
    }
}

} // verus!
