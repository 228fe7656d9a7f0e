//! What a whole scan finds, whatever the file system answers.

use crate::entry::EntryView;
use crate::model::AppView;
use crate::path::{child, file_name_is, named, parent, PathView};
use crate::runs::{comes_in_turn, InputView};
use crate::scan::{
    measured_entry, scan_step_keeps_wf, ScanActionView, ScanEventView, ScanPhaseView, ScanView,
};
use crate::time::TimeSpan;
use crate::totals::size_total;
use vstd::prelude::*;

verus! {

/// A scan below a root after a number of answers.
pub open spec fn scan_after(root: PathView, events: Seq<ScanEventView>) -> ScanView
    decreases events.len(),
{
    if events.len() == 0 {
        ScanView::initial(root)
    } else {
        scan_after(root, events.drop_last()).after_event(events.last()).0
    }
}

/// Whether each of a number of answers belonged to the step that it answered.
pub open spec fn scan_expects_all(root: PathView, events: Seq<ScanEventView>) -> bool
    decreases events.len(),
{
    events.len() == 0 || (scan_expects_all(root, events.drop_last()) && scan_after(
        root,
        events.drop_last(),
    ).expects(events.last()))
}

/// Whether an answer is a file named `Cargo.toml` in a project's directory.
pub open spec fn is_manifest_of(event: ScanEventView, project_root: PathView) -> bool {
    event matches ScanEventView::Found { path, is_file } && is_file && file_name_is(
        path,
        "Cargo.toml"@,
    ) && parent(path) == Some(project_root)
}

/// Whether four answers from `at` on found an entry: the manifest of its project, then a
/// directory named `target` beside it, its real path, and what is in it.
pub open spec fn found_at(
    root: PathView,
    events: Seq<ScanEventView>,
    entry: EntryView,
    at: int,
) -> bool {
    &&& 0 <= at && at + 3 < events.len()
    &&& is_manifest_of(events[at], entry.project_root)
    &&& events[at + 1] == (ScanEventView::Inspected { is_directory: true })
    &&& events[at + 2] == ScanEventView::Resolved(entry.target_path)
    &&& events[at + 3] matches ScanEventView::Measured(measured) && entry == measured_entry(
        entry.project_root,
        entry.target_path,
        root,
        measured,
    )
}

/// Whether four answers in a row found an entry.
pub open spec fn was_found(root: PathView, events: Seq<ScanEventView>, entry: EntryView) -> bool {
    exists|at: int| found_at(root, events, entry, at)
}

/// Whether the last answers led to the phase that a scan is in.
spec fn phase_follows(phase: ScanPhaseView, events: Seq<ScanEventView>) -> bool {
    let count = events.len() as int;
    match phase {
        ScanPhaseView::Walking => true,
        ScanPhaseView::Inspecting { project_root, target_path } => {
            &&& count >= 1
            &&& is_manifest_of(events[count - 1], project_root)
            &&& target_path == child(project_root, named("target"@))
        },
        ScanPhaseView::Resolving { project_root, target_path } => {
            &&& count >= 2
            &&& is_manifest_of(events[count - 2], project_root)
            &&& target_path == child(project_root, named("target"@))
            &&& events[count - 1] == (ScanEventView::Inspected { is_directory: true })
        },
        ScanPhaseView::Measuring { project_root, target_path, real_target } => {
            &&& count >= 3
            &&& is_manifest_of(events[count - 3], project_root)
            &&& target_path == child(project_root, named("target"@))
            &&& events[count - 2] == (ScanEventView::Inspected { is_directory: true })
            &&& events[count - 1] == ScanEventView::Resolved(real_target)
        },
    }
}

proof fn scan_follows_answers(root: PathView, events: Seq<ScanEventView>)
    requires
        scan_expects_all(root, events),
    ensures
        scan_after(root, events).wf(),
        scan_after(root, events).root == root,
        phase_follows(scan_after(root, events).phase, events),
        forall|index: int|
            0 <= index < scan_after(root, events).entries.len() ==> was_found(
                root,
                events,
                #[trigger] scan_after(root, events).entries[index],
            ),
    decreases events.len(),
{
    let scan = scan_after(root, events);
    if events.len() > 0 {
        let earlier = events.drop_last();
        let before = scan_after(root, earlier);
        scan_follows_answers(root, earlier);
        scan_step_keeps_wf(before, events.last());
        assert forall|index: int| 0 <= index < scan.entries.len() implies was_found(
            root,
            events,
            #[trigger] scan.entries[index],
        ) by {
            if index < before.entries.len() {
                assert(scan.entries[index] == before.entries[index]);
                let at = choose|at: int|
                    found_at(root, earlier, before.entries[index], at);
                assert(found_at(root, earlier, before.entries[index], at));
                assert(found_at(root, events, scan.entries[index], at));
            } else {
                assert(found_at(root, events, scan.entries[index], events.len() - 4));
            }
        }
    }
}

/// Every entry of a scan is a directory named `target` beside the manifest of a project: a plain
/// directory without a manifest beside it is never found.
pub proof fn entries_are_backed_by_manifests(
    root: PathView,
    events: Seq<ScanEventView>,
    index: int,
)
    requires
        scan_expects_all(root, events),
        0 <= index < scan_after(root, events).entries.len(),
    ensures
        was_found(root, events, scan_after(root, events).entries[index]),
{
    scan_follows_answers(root, events);
}

/// No directory stands on the list of a scan twice.
pub proof fn entries_are_distinct(
    root: PathView,
    events: Seq<ScanEventView>,
    left: int,
    right: int,
)
    requires
        scan_expects_all(root, events),
        0 <= left < right < scan_after(root, events).entries.len(),
    ensures
        scan_after(root, events).entries[left].target_path != scan_after(
            root,
            events,
        ).entries[right].target_path,
{
    scan_follows_answers(root, events);
}

/// The total of a scan is the sum of the sizes on its list, at every moment.
pub proof fn total_is_sum_of_sizes(root: PathView, events: Seq<ScanEventView>)
    requires
        scan_expects_all(root, events),
    ensures
        scan_after(root, events).total_bytes == size_total(scan_after(root, events).entries),
{
    scan_follows_answers(root, events);
}

/// A directory that was measured is put at the end of the list, and what is on the list stays
/// there as it is.
pub proof fn measured_directories_stay_listed(
    root: PathView,
    events: Seq<ScanEventView>,
    count: int,
)
    requires
        scan_expects_all(root, events),
        0 <= count <= events.len(),
    ensures
        scan_after(root, events.take(count)).entries.is_prefix_of(scan_after(root, events).entries),
        count > 0 && events[count - 1] is Measured ==> scan_after(
            root,
            events.take(count),
        ).entries.len() == scan_after(root, events.take(count - 1)).entries.len() + 1,
    decreases events.len(),
{
    if count == events.len() {
        assert(events.take(count) =~= events);
        if count > 0 {
            assert(events.take(count - 1) =~= events.drop_last());
        }
    } else {
        let earlier = events.drop_last();
        measured_directories_stay_listed(root, earlier, count);
        assert(earlier.take(count) =~= events.take(count));
        if count > 0 {
            assert(earlier.take(count - 1) =~= events.take(count - 1));
        }
        let before = scan_after(root, earlier).entries;
        let after = scan_after(root, events).entries;
        assert(before.is_prefix_of(after));
        let first = scan_after(root, events.take(count)).entries;
        assert(first =~= after.subrange(0, first.len() as int));
    }
}

proof fn earlier_answers_were_expected(root: PathView, events: Seq<ScanEventView>, count: int)
    requires
        scan_expects_all(root, events),
        0 <= count <= events.len(),
    ensures
        scan_expects_all(root, events.take(count)),
    decreases events.len(),
{
    if count == events.len() {
        assert(events.take(count) =~= events);
    } else {
        earlier_answers_were_expected(root, events.drop_last(), count);
        assert(events.drop_last().take(count) =~= events.take(count));
    }
}

/// Every directory that was measured beside the manifest of a project is on the list at the end.
pub proof fn measured_directories_are_found(
    root: PathView,
    events: Seq<ScanEventView>,
    at: int,
)
    requires
        scan_expects_all(root, events),
        0 <= at < events.len(),
        events[at] is Measured,
    ensures
        exists|index: int|
            0 <= index < scan_after(root, events).entries.len() && found_at(
                root,
                events,
                #[trigger] scan_after(root, events).entries[index],
                at - 3,
            ),
{
    let entries = scan_after(root, events).entries;
    let until = events.take(at + 1);
    let before = events.take(at);
    earlier_answers_were_expected(root, events, at + 1);
    assert(until.drop_last() =~= before);
    assert(until.last() == events[at]);
    scan_follows_answers(root, before);
    measured_directories_stay_listed(root, events, at + 1);
    let listed = scan_after(root, until).entries;
    let index = listed.len() - 1;
    assert(listed == entries.subrange(0, listed.len() as int));
    assert(entries[index] == listed[index]);
    assert(found_at(root, events, entries[index], at - 3));
}

/// The directory of a project's manifest is measured unless it was seen before: the step after
/// its real path was looked up measures it.
pub proof fn unseen_directories_are_measured(
    root: PathView,
    events: Seq<ScanEventView>,
    real_target: PathView,
)
    requires
        scan_expects_all(root, events),
        scan_after(root, events).phase is Resolving,
        !scan_after(root, events).seen_targets.contains(real_target),
    ensures
        scan_after(root, events).after_event(ScanEventView::Resolved(real_target)).1
            == ScanActionView::Measure(real_target),
{
}

/// The sizes in the report of a scan can be added up.
pub proof fn report_fits(
    root: PathView,
    events: Seq<ScanEventView>,
    elapsed: TimeSpan,
)
    requires
        scan_expects_all(root, events),
    ensures
        scan_after(root, events).report(elapsed).fits(),
{
    scan_follows_answers(root, events);
}

/// The report of a scan lists every directory once, none of them removed yet.
pub proof fn report_lists_each_once(
    root: PathView,
    events: Seq<ScanEventView>,
    elapsed: TimeSpan,
    state: AppView,
)
    requires
        scan_expects_all(root, events),
    ensures
        comes_in_turn(state, InputView::Message(scan_after(root, events).report(elapsed))),
{
    scan_follows_answers(root, events);
    let entries = scan_after(root, events).entries;
    assert forall|index: int| 0 <= index < entries.len() implies (
    #[trigger] entries[index]).delete_status is Ready by {
        assert(was_found(root, events, entries[index]));
    }
}

} // verus!
