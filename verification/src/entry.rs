//! Entries of the list of `target` directories: what they hold, how they are ordered and which
//! of them a search shows.

use crate::path::{FilePath, PathView};
use crate::text::{
    compare_text, find, lower_characters, lower_text, occurs_in, reversed, text_order,
    text_order_chains, text_order_exchanges,
};
use crate::time::{compare_time, time_order, Timestamp};
use std::cmp::Ordering;
use vstd::prelude::*;

verus! {

/// What has become of the removal of a directory.
pub enum DeleteStatus {
    Ready,
    Deleting,
    Deleted,
    Failed(String),
}

/// What a status holds.
#[verifier::ext_equal]
pub enum StatusView {
    Ready,
    Deleting,
    Deleted,
    Failed(Seq<char>),
}

impl View for DeleteStatus {
    type V = StatusView;

    open spec fn view(&self) -> StatusView {
        match self {
            DeleteStatus::Ready => StatusView::Ready,
            DeleteStatus::Deleting => StatusView::Deleting,
            DeleteStatus::Deleted => StatusView::Deleted,
            DeleteStatus::Failed(reason) => StatusView::Failed(reason@),
        }
    }
}

impl DeleteStatus {
    /// Tells whether the directory is gone.
    pub fn is_deleted(&self) -> (result: bool)
        ensures
            result == (self@ is Deleted),
    {
        match self {
            DeleteStatus::Deleted => true,
            _ => false,
        }
    }

    /// Tells whether the directory is being removed.
    pub fn is_deleting(&self) -> (result: bool)
        ensures
            result == (self@ is Deleting),
    {
        match self {
            DeleteStatus::Deleting => true,
            _ => false,
        }
    }
}

impl Clone for DeleteStatus {
    fn clone(&self) -> (result: Self)
        ensures
            result@ == self@,
    {
        match self {
            DeleteStatus::Ready => DeleteStatus::Ready,
            DeleteStatus::Deleting => DeleteStatus::Deleting,
            DeleteStatus::Deleted => DeleteStatus::Deleted,
            DeleteStatus::Failed(reason) => DeleteStatus::Failed(reason.clone()),
        }
    }
}

/// A `target` directory with the project that it belongs to.
pub struct TargetEntry {
    pub project_root: FilePath,
    pub target_path: FilePath,
    pub display_name: String,
    pub relative_path: String,
    pub size_bytes: u64,
    pub original_size_bytes: u64,
    pub modified_at: Timestamp,
    pub delete_status: DeleteStatus,
}

/// What an entry holds.
#[verifier::ext_equal]
pub struct EntryView {
    pub project_root: PathView,
    pub target_path: PathView,
    pub display_name: Seq<char>,
    pub relative_path: Seq<char>,
    pub size_bytes: u64,
    pub original_size_bytes: u64,
    pub modified_at: Timestamp,
    pub delete_status: StatusView,
}

impl View for TargetEntry {
    type V = EntryView;

    open spec fn view(&self) -> EntryView {
        EntryView {
            project_root: self.project_root@,
            target_path: self.target_path@,
            display_name: self.display_name@,
            relative_path: self.relative_path@,
            size_bytes: self.size_bytes,
            original_size_bytes: self.original_size_bytes,
            modified_at: self.modified_at,
            delete_status: self.delete_status@,
        }
    }
}

/// What the entries of a list hold.
pub open spec fn entry_views(entries: Seq<TargetEntry>) -> Seq<EntryView> {
    entries.map_values(|entry: TargetEntry| entry@)
}

impl EntryView {
    /// The bytes that the directory takes up: none once it is gone.
    pub open spec fn effective_size(self) -> u64 {
        if self.delete_status is Deleted {
            0
        } else {
            self.size_bytes
        }
    }

    /// Whether the entry can be selected: its directory is neither gone nor being removed.
    pub open spec fn selectable(self) -> bool {
        !(self.delete_status is Deleting) && !(self.delete_status is Deleted)
    }
}

impl TargetEntry {
    /// The bytes that the directory takes up: none once it is gone.
    pub fn effective_size_bytes(&self) -> (result: u64)
        ensures
            result == self@.effective_size(),
    {
        if self.delete_status.is_deleted() {
            0
        } else {
            self.size_bytes
        }
    }

    /// Tells whether the entry can be selected.
    pub fn is_selectable(&self) -> (result: bool)
        ensures
            result == self@.selectable(),
    {
        !(self.delete_status.is_deleting() || self.delete_status.is_deleted())
    }
}

impl Clone for TargetEntry {
    fn clone(&self) -> (result: Self)
        ensures
            result@ == self@,
    {
        TargetEntry {
            project_root: self.project_root.clone(),
            target_path: self.target_path.clone(),
            display_name: self.display_name.clone(),
            relative_path: self.relative_path.clone(),
            size_bytes: self.size_bytes,
            original_size_bytes: self.original_size_bytes,
            modified_at: self.modified_at,
            delete_status: self.delete_status.clone(),
        }
    }
}

/// What entries are sorted by.
#[derive(Clone, Copy, Debug, PartialEq, Eq, Structural)]
pub enum SortField {
    Size,
    Name,
    Modified,
    Path,
}

/// In which direction entries are sorted.
#[derive(Clone, Copy, Debug, PartialEq, Eq, Structural)]
pub enum SortOrder {
    Asc,
    Desc,
}

/// The fields in the order in which they are offered.
pub open spec fn sort_fields() -> Seq<SortField> {
    seq![SortField::Size, SortField::Name, SortField::Modified, SortField::Path]
}

/// The position of a field among those that are offered.
pub open spec fn sort_field_index(field: SortField) -> usize {
    match field {
        SortField::Size => 0,
        SortField::Name => 1,
        SortField::Modified => 2,
        SortField::Path => 3,
    }
}

/// The name of a field.
pub open spec fn sort_field_label(field: SortField) -> Seq<char> {
    match field {
        SortField::Size => "Size"@,
        SortField::Name => "Name"@,
        SortField::Modified => "Modified"@,
        SortField::Path => "Path"@,
    }
}

/// The direction in which a field is sorted when it is first chosen: the largest and the latest
/// first, names and paths in alphabetical order.
pub open spec fn default_sort_order(field: SortField) -> SortOrder {
    if field == SortField::Size || field == SortField::Modified {
        SortOrder::Desc
    } else {
        SortOrder::Asc
    }
}

/// The number of fields that are offered.
pub const SORT_FIELD_COUNT: usize = 4;

impl SortField {
    /// The field at a position among those that are offered.
    pub fn at(index: usize) -> (result: SortField)
        requires
            index < SORT_FIELD_COUNT,
        ensures
            result == sort_fields()[index as int],
            sort_field_index(result) == index,
    {
        if index == 0 {
            SortField::Size
        } else if index == 1 {
            SortField::Name
        } else if index == 2 {
            SortField::Modified
        } else {
            SortField::Path
        }
    }

    /// The position of the field among those that are offered.
    pub fn index(self) -> (result: usize)
        ensures
            result == sort_field_index(self),
            result < SORT_FIELD_COUNT,
            sort_fields()[result as int] == self,
    {
        match self {
            SortField::Size => 0,
            SortField::Name => 1,
            SortField::Modified => 2,
            SortField::Path => 3,
        }
    }

    /// The name of the field.
    pub fn label(self) -> (result: &'static str)
        ensures
            result@ == sort_field_label(self),
    {
        match self {
            SortField::Size => "Size",
            SortField::Name => "Name",
            SortField::Modified => "Modified",
            SortField::Path => "Path",
        }
    }

    /// The direction in which the field is sorted when it is first chosen.
    pub fn default_order(self) -> (result: SortOrder)
        ensures
            result == default_sort_order(self),
    {
        match self {
            SortField::Size | SortField::Modified => SortOrder::Desc,
            SortField::Name | SortField::Path => SortOrder::Asc,
        }
    }
}

/// The arrow that stands for a direction.
pub open spec fn sort_order_symbol(order: SortOrder) -> Seq<char> {
    match order {
        SortOrder::Asc => "\u{2191}"@,
        SortOrder::Desc => "\u{2193}"@,
    }
}

/// The other direction.
pub open spec fn other_order(order: SortOrder) -> SortOrder {
    match order {
        SortOrder::Asc => SortOrder::Desc,
        SortOrder::Desc => SortOrder::Asc,
    }
}

impl SortOrder {
    /// The arrow that stands for the direction.
    pub fn symbol(self) -> (result: &'static str)
        ensures
            result@ == sort_order_symbol(self),
    {
        match self {
            SortOrder::Asc => "\u{2191}",
            SortOrder::Desc => "\u{2193}",
        }
    }

    /// The other direction.
    pub fn toggle(self) -> (result: Self)
        ensures
            result == other_order(self),
    {
        match self {
            SortOrder::Asc => SortOrder::Desc,
            SortOrder::Desc => SortOrder::Asc,
        }
    }
}

/// The order of two sizes.
pub open spec fn size_order(left: u64, right: u64) -> Ordering {
    if left < right {
        Ordering::Less
    } else if left > right {
        Ordering::Greater
    } else {
        Ordering::Equal
    }
}

/// The first ordering, or the second one where the first leaves the two equal.
pub open spec fn first_then(first: Ordering, second: Ordering) -> Ordering {
    if first == Ordering::Equal {
        second
    } else {
        first
    }
}

/// The order of two entries by a field, from the smallest to the largest. Entries that the field
/// leaves equal are ordered by name; where the field is the name, by path.
pub open spec fn field_order(left: EntryView, right: EntryView, field: SortField) -> Ordering {
    match field {
        SortField::Size => first_then(
            size_order(left.effective_size(), right.effective_size()),
            text_order(left.display_name, right.display_name),
        ),
        SortField::Name => first_then(
            text_order(left.display_name, right.display_name),
            text_order(left.relative_path, right.relative_path),
        ),
        SortField::Modified => first_then(
            time_order(left.modified_at, right.modified_at),
            text_order(left.display_name, right.display_name),
        ),
        SortField::Path => first_then(
            text_order(left.relative_path, right.relative_path),
            text_order(left.display_name, right.display_name),
        ),
    }
}

/// The order of two entries by a field in a direction.
pub open spec fn entry_order(
    left: EntryView,
    right: EntryView,
    field: SortField,
    order: SortOrder,
) -> Ordering {
    match order {
        SortOrder::Asc => field_order(left, right, field),
        SortOrder::Desc => reversed(field_order(left, right, field)),
    }
}

/// Whether an entry may stand before another one in a sorted list.
pub open spec fn entry_le(
    left: EntryView,
    right: EntryView,
    field: SortField,
    order: SortOrder,
) -> bool {
    entry_order(left, right, field, order) != Ordering::Greater
}

/// Compares two sizes.
fn compare_size(left: u64, right: u64) -> (result: Ordering)
    ensures
        result == size_order(left, right),
{
    if left < right {
        Ordering::Less
    } else if left > right {
        Ordering::Greater
    } else {
        Ordering::Equal
    }
}

/// Compares two entries by a field in a direction.
pub fn compare_entries(
    left: &TargetEntry,
    right: &TargetEntry,
    field: SortField,
    order: SortOrder,
) -> (result: Ordering)
    ensures
        result == entry_order(left@, right@, field, order),
{
    let first = match field {
        SortField::Size => compare_size(
            left.effective_size_bytes(),
            right.effective_size_bytes(),
        ),
        SortField::Name => compare_text(
            left.display_name.as_str(),
            right.display_name.as_str(),
        ),
        SortField::Modified => compare_time(&left.modified_at, &right.modified_at),
        SortField::Path => compare_text(
            left.relative_path.as_str(),
            right.relative_path.as_str(),
        ),
    };
    let ascending = match first {
        Ordering::Equal => match field {
            SortField::Name => compare_text(
                left.relative_path.as_str(),
                right.relative_path.as_str(),
            ),
            _ => compare_text(left.display_name.as_str(), right.display_name.as_str()),
        },
        _ => first,
    };
    match order {
        SortOrder::Asc => ascending,
        SortOrder::Desc => match ascending {
            Ordering::Less => Ordering::Greater,
            Ordering::Equal => Ordering::Equal,
            Ordering::Greater => Ordering::Less,
        },
    }
}

/// Exchanging the two entries reverses the comparison.
pub proof fn entry_order_exchanges(
    left: EntryView,
    right: EntryView,
    field: SortField,
    order: SortOrder,
)
    ensures
        entry_order(right, left, field, order) == reversed(entry_order(left, right, field, order)),
{
    text_order_exchanges(left.display_name, right.display_name);
    text_order_exchanges(left.relative_path, right.relative_path);
}

proof fn field_order_chains(
    first: EntryView,
    second: EntryView,
    third: EntryView,
    field: SortField,
)
    requires
        field_order(first, second, field) != Ordering::Greater,
        field_order(second, third, field) != Ordering::Greater,
    ensures
        field_order(first, third, field) != Ordering::Greater,
{
    if text_order(first.display_name, second.display_name) != Ordering::Greater && text_order(
        second.display_name,
        third.display_name,
    ) != Ordering::Greater {
        text_order_chains(first.display_name, second.display_name, third.display_name);
    }
    if text_order(first.relative_path, second.relative_path) != Ordering::Greater && text_order(
        second.relative_path,
        third.relative_path,
    ) != Ordering::Greater {
        text_order_chains(first.relative_path, second.relative_path, third.relative_path);
    }
}

/// The order of entries is transitive.
pub proof fn entry_order_chains(
    first: EntryView,
    second: EntryView,
    third: EntryView,
    field: SortField,
    order: SortOrder,
)
    requires
        entry_le(first, second, field, order),
        entry_le(second, third, field, order),
    ensures
        entry_le(first, third, field, order),
{
    match order {
        SortOrder::Asc => {
            field_order_chains(first, second, third, field);
        },
        SortOrder::Desc => {
            entry_order_exchanges(first, second, field, SortOrder::Asc);
            entry_order_exchanges(second, third, field, SortOrder::Asc);
            entry_order_exchanges(first, third, field, SortOrder::Asc);
            field_order_chains(third, second, first, field);
        },
    }
}

/// Of two entries one may stand before the other.
pub proof fn entry_order_total(
    left: EntryView,
    right: EntryView,
    field: SortField,
    order: SortOrder,
)
    ensures
        entry_le(left, right, field, order) || entry_le(right, left, field, order),
{
    entry_order_exchanges(left, right, field, order);
}

/// Turning the direction round twice leaves it as it was.
pub proof fn other_order_twice(order: SortOrder)
    ensures
        other_order(other_order(order)) == order,
{
}

/// Sorting in the other direction turns every comparison round.
pub proof fn other_order_reverses(left: EntryView, right: EntryView, field: SortField)
    ensures
        entry_order(left, right, field, SortOrder::Desc) == reversed(
            entry_order(left, right, field, SortOrder::Asc),
        ),
{
}

/// Whether a search shows an entry: its name or its path holds the query, capitals or not. An
/// empty query shows every entry.
pub open spec fn matches_query(entry: EntryView, query: Seq<char>) -> bool {
    query.len() == 0 || occurs_in(lower_text(entry.display_name), lower_text(query)) || occurs_in(
        lower_text(entry.relative_path),
        lower_text(query),
    )
}

/// Tells whether a search shows an entry.
pub fn entry_matches_query(entry: &TargetEntry, query: &str) -> (result: bool)
    ensures
        result == matches_query(entry@, query@),
{
    if query.is_empty() {
        return true;
    }
    let needle = lower_characters(query);
    find(&lower_characters(entry.display_name.as_str()), &needle).is_some() || find(
        &lower_characters(entry.relative_path.as_str()),
        &needle,
    ).is_some()
}

} // verus!
