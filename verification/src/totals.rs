//! Sums of sizes over lists of entries.

use crate::entry::{entry_views, EntryView, TargetEntry};
use vstd::prelude::*;

verus! {

/// The bytes that the directories of a list take up.
pub open spec fn effective_total(entries: Seq<EntryView>) -> nat
    decreases entries.len(),
{
    if entries.len() == 0 {
        0
    } else {
        effective_total(entries.drop_last()) + entries.last().effective_size() as nat
    }
}

/// The sum of the sizes that the entries of a list hold.
pub open spec fn size_total(entries: Seq<EntryView>) -> nat
    decreases entries.len(),
{
    if entries.len() == 0 {
        0
    } else {
        size_total(entries.drop_last()) + entries.last().size_bytes as nat
    }
}

/// The sum of the sizes that the directories of a list had when they were found.
pub open spec fn original_total(entries: Seq<EntryView>) -> nat
    decreases entries.len(),
{
    if entries.len() == 0 {
        0
    } else {
        original_total(entries.drop_last()) + entries.last().original_size_bytes as nat
    }
}

/// A total over a list is at least the total over its beginning.
pub proof fn totals_grow(entries: Seq<EntryView>, count: int)
    requires
        0 <= count <= entries.len(),
    ensures
        effective_total(entries.take(count)) <= effective_total(entries),
        size_total(entries.take(count)) <= size_total(entries),
        original_total(entries.take(count)) <= original_total(entries),
    decreases entries.len(),
{
    if count == entries.len() {
        assert(entries.take(count) =~= entries);
    } else {
        totals_grow(entries.drop_last(), count);
        assert(entries.drop_last().take(count) =~= entries.take(count));
    }
}

/// Directories take up at most what their entries hold.
pub proof fn effective_within_size(entries: Seq<EntryView>)
    ensures
        effective_total(entries) <= size_total(entries),
    decreases entries.len(),
{
    if entries.len() > 0 {
        effective_within_size(entries.drop_last());
    }
}

/// A total over some of the entries of a list is at most the total over all of them.
pub proof fn totals_of_some(entries: Seq<EntryView>, chosen: spec_fn(EntryView) -> bool)
    ensures
        effective_total(entries.filter(chosen)) <= effective_total(entries),
        original_total(entries.filter(chosen)) <= original_total(entries),
    decreases entries.len(),
{
    reveal(Seq::filter);
    if entries.len() > 0 {
        let shorter = entries.drop_last();
        totals_of_some(shorter, chosen);
        if chosen(entries.last()) {
            assert(shorter.filter(chosen).push(entries.last()).drop_last() =~= shorter.filter(
                chosen,
            ));
        }
    }
}

/// How choosing entries goes on from one entry to the next.
pub proof fn filter_step(entries: Seq<EntryView>, index: int, chosen: spec_fn(EntryView) -> bool)
    requires
        0 <= index < entries.len(),
    ensures
        entries.take(index + 1).filter(chosen) == if chosen(entries[index]) {
            entries.take(index).filter(chosen).push(entries[index])
        } else {
            entries.take(index).filter(chosen)
        },
{
    reveal(Seq::filter);
    assert(entries.take(index + 1).drop_last() =~= entries.take(index));
}

/// Replacing one entry changes a total by the difference of the two entries.
pub proof fn totals_update(entries: Seq<EntryView>, at: int, entry: EntryView)
    requires
        0 <= at < entries.len(),
    ensures
        effective_total(entries.update(at, entry)) == effective_total(entries)
            - entries[at].effective_size() + entry.effective_size(),
        size_total(entries.update(at, entry)) == size_total(entries) - entries[at].size_bytes
            + entry.size_bytes,
        original_total(entries.update(at, entry)) == original_total(entries)
            - entries[at].original_size_bytes + entry.original_size_bytes,
    decreases entries.len(),
{
    let changed = entries.update(at, entry);
    if at == entries.len() - 1 {
        assert(changed.drop_last() =~= entries.drop_last());
    } else {
        totals_update(entries.drop_last(), at, entry);
        assert(changed.drop_last() =~= entries.drop_last().update(at, entry));
    }
}

/// Adds up the bytes that the directories of a list take up.
pub fn add_effective(entries: &Vec<TargetEntry>) -> (result: u64)
    requires
        effective_total(entry_views(entries@)) <= u64::MAX,
    ensures
        result == effective_total(entry_views(entries@)),
{
    let ghost all = entry_views(entries@);
    let mut result: u64 = 0;
    let mut index: usize = 0;
    while index < entries.len()
        invariant
            index <= entries@.len(),
            all == entry_views(entries@),
            effective_total(all) <= u64::MAX,
            result == effective_total(all.take(index as int)),
        decreases entries@.len() - index,
    {
        proof {
            totals_grow(all, index + 1);
            assert(all.take(index + 1).drop_last() =~= all.take(index as int));
        }
        result += entries[index].effective_size_bytes();
        index += 1;
    }
    assert(all.take(all.len() as int) =~= all);
    result
}

/// Adds up the sizes that the entries of a list hold.
pub fn add_sizes(entries: &Vec<TargetEntry>) -> (result: u64)
    requires
        size_total(entry_views(entries@)) <= u64::MAX,
    ensures
        result == size_total(entry_views(entries@)),
{
    let ghost all = entry_views(entries@);
    let mut result: u64 = 0;
    let mut index: usize = 0;
    while index < entries.len()
        invariant
            index <= entries@.len(),
            all == entry_views(entries@),
            size_total(all) <= u64::MAX,
            result == size_total(all.take(index as int)),
        decreases entries@.len() - index,
    {
        proof {
            totals_grow(all, index + 1);
            assert(all.take(index + 1).drop_last() =~= all.take(index as int));
        }
        result += entries[index].size_bytes;
        index += 1;
    }
    assert(all.take(all.len() as int) =~= all);
    result
}

} // verus!
