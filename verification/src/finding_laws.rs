//! What a scan finds: which directories, from which manifests, and what it says of them.

use crate::message::MessageView;
use crate::path::{path_text, relative_path_text, ComponentView, NameView, PathView};
use crate::scan::{
    descends, latest_change, measured_entry, MeasurementView, ScanActionView, ScanEventView,
    ScanPhaseView, ScanView, WalkedFile,
};
use crate::scan_laws::{found_at, measured_directories_are_found, scan_after, scan_expects_all};
use crate::time::{TimeSpan, Timestamp};
use vstd::prelude::*;

verus! {

/// A directory with a name behind it.
pub open spec fn inside(directory: PathView, name: Seq<char>) -> PathView {
    directory.push(ComponentView::Normal(NameView { shown: name, raw: None }))
}

/// A file named `Cargo.toml`, in whatever directory, makes the scan look at the directory named
/// `target` beside it, and changes nothing else.
pub proof fn manifests_lead_to_their_targets(scan: ScanView, directory: PathView)
    requires
        scan.phase is Walking,
    ensures
        ({
            let (after, action) = scan.after_event(
                ScanEventView::Found { path: inside(directory, "Cargo.toml"@), is_file: true },
            );
            let target = inside(directory, "target"@);
            &&& action == ScanActionView::Inspect(target)
            &&& after.phase == (ScanPhaseView::Inspecting {
                project_root: directory,
                target_path: target,
            })
            &&& after.entries == scan.entries
            &&& after.warnings == scan.warnings
            &&& after.seen_targets == scan.seen_targets
            &&& after.total_bytes == scan.total_bytes
            &&& after.root == scan.root
        }),
{
    let path = inside(directory, "Cargo.toml"@);
    assert(path.drop_last() =~= directory);
}

/// Everything else that the walk meets is passed over: what is not a file, and every file with
/// another name.
pub proof fn other_findings_are_passed_over(scan: ScanView, path: PathView, is_file: bool)
    requires
        scan.phase is Walking,
        !is_file || forall|directory: PathView| path != #[trigger] inside(
            directory,
            "Cargo.toml"@,
        ),
    ensures
        scan.after_event(ScanEventView::Found { path, is_file }) == (scan, ScanActionView::Walk),
{
    if is_file && path.len() > 0 {
        let directory = path.drop_last();
        assert(path =~= directory.push(path.last()));
        assert(path != inside(directory, "Cargo.toml"@));
    }
}

/// A real directory beside a manifest has its real path looked up. What is no directory, or a link
/// to one, is passed over.
pub proof fn only_real_directories_are_looked_up(
    scan: ScanView,
    directory: PathView,
    target: PathView,
    is_directory: bool,
)
    requires
        scan.phase == (ScanPhaseView::Inspecting { project_root: directory, target_path: target }),
    ensures
        ({
            let (after, action) = scan.after_event(ScanEventView::Inspected { is_directory });
            &&& after.entries == scan.entries
            &&& after.warnings == scan.warnings
            &&& after.seen_targets == scan.seen_targets
            &&& after.total_bytes == scan.total_bytes
            &&& is_directory ==> action == ScanActionView::Resolve(target) && after.phase == (
            ScanPhaseView::Resolving { project_root: directory, target_path: target })
            &&& !is_directory ==> action == ScanActionView::Walk && after.phase is Walking
        }),
{
}

/// Whether an answer gave a real path.
pub open spec fn resolved(events: Seq<ScanEventView>, path: PathView) -> bool {
    exists|at: int| 0 <= at < events.len() && #[trigger] events[at] == ScanEventView::Resolved(path)
}

/// The scan remembers exactly the real paths that were looked up.
pub proof fn seen_is_what_was_looked_up(
    root: PathView,
    events: Seq<ScanEventView>,
    path: PathView,
)
    requires
        scan_expects_all(root, events),
    ensures
        scan_after(root, events).seen_targets.contains(path) <==> resolved(events, path),
    decreases events.len(),
{
    if events.len() > 0 {
        let earlier = events.drop_last();
        seen_is_what_was_looked_up(root, earlier, path);
        if resolved(earlier, path) {
            let at = choose|at: int|
                0 <= at < earlier.len() && #[trigger] earlier[at] == ScanEventView::Resolved(path);
            assert(events[at] == ScanEventView::Resolved(path));
        }
        if resolved(events, path) && !resolved(earlier, path) {
            let at = choose|at: int|
                0 <= at < events.len() && #[trigger] events[at] == ScanEventView::Resolved(path);
            if at < earlier.len() {
                assert(earlier[at] == ScanEventView::Resolved(path));
            }
            assert(at == events.len() - 1);
        }
        if events.last() == ScanEventView::Resolved(path) {
            assert(events[events.len() - 1] == ScanEventView::Resolved(path));
        }
    }
}

/// A directory whose real path was not looked up before is measured, under its real path. One
/// that was looked up before is passed over.
pub proof fn each_real_path_is_measured_once(
    root: PathView,
    events: Seq<ScanEventView>,
    directory: PathView,
    target: PathView,
    real_target: PathView,
)
    requires
        scan_expects_all(root, events),
        scan_after(root, events).phase == (ScanPhaseView::Resolving {
            project_root: directory,
            target_path: target,
        }),
    ensures
        ({
            let scan = scan_after(root, events);
            let (after, action) = scan.after_event(ScanEventView::Resolved(real_target));
            &&& after.entries == scan.entries
            &&& after.warnings == scan.warnings
            &&& after.total_bytes == scan.total_bytes
            &&& resolved(events, real_target) ==> action == ScanActionView::Walk
                && after.phase is Walking
            &&& !resolved(events, real_target) ==> action == ScanActionView::Measure(real_target)
                && after.phase == (ScanPhaseView::Measuring {
                project_root: directory,
                target_path: target,
                real_target,
            })
        }),
{
    seen_is_what_was_looked_up(root, events, real_target);
}

/// From the manifest on nothing is lost: where a manifest was found, the directory beside it is a
/// real one, its real path was not looked up before, and it was measured, the directory is on the
/// list at the end, under its real path and with its project.
pub proof fn targets_of_manifests_are_listed(
    root: PathView,
    events: Seq<ScanEventView>,
    at: int,
    directory: PathView,
    real_target: PathView,
)
    requires
        scan_expects_all(root, events),
        0 <= at,
        at + 3 < events.len(),
        scan_after(root, events.take(at)).phase is Walking,
        events[at] == (ScanEventView::Found {
            path: inside(directory, "Cargo.toml"@),
            is_file: true,
        }),
        events[at + 1] == (ScanEventView::Inspected { is_directory: true }),
        events[at + 2] == ScanEventView::Resolved(real_target),
        events[at + 3] is Measured,
    ensures
        exists|index: int|
            0 <= index < scan_after(root, events).entries.len() && (#[trigger] scan_after(
                root,
                events,
            ).entries[index]).target_path == real_target && scan_after(
                root,
                events,
            ).entries[index].project_root == directory,
{
    let entries = scan_after(root, events).entries;
    measured_directories_are_found(root, events, at + 3);
    let index = choose|index: int|
        0 <= index < entries.len() && found_at(root, events, #[trigger] entries[index], at);
    assert(inside(directory, "Cargo.toml"@).drop_last() =~= directory);
    assert(entries[index].target_path == real_target);
    assert(entries[index].project_root == directory);
}

/// The answers that a scan waits for follow one another: after a manifest comes the look at the
/// directory beside it, then its real path, then what is in it.
pub proof fn steps_of_a_find_follow(
    root: PathView,
    events: Seq<ScanEventView>,
    directory: PathView,
    real_target: PathView,
    measured: MeasurementView,
)
    requires
        scan_expects_all(root, events),
        scan_after(root, events).phase is Walking,
        !resolved(events, real_target),
        scan_after(root, events).total_bytes + measured.size() <= u64::MAX,
        scan_after(root, events).entries.len() < usize::MAX,
    ensures
        ({
            let found = ScanEventView::Found {
                path: inside(directory, "Cargo.toml"@),
                is_file: true,
            };
            let all = events.push(found).push(
                ScanEventView::Inspected { is_directory: true },
            ).push(ScanEventView::Resolved(real_target)).push(ScanEventView::Measured(measured));
            let before = scan_after(root, events);
            let after = scan_after(root, all);
            &&& scan_expects_all(root, all)
            &&& after.phase is Walking
            &&& after.warnings == before.warnings
            &&& after.entries.len() == before.entries.len() + 1
            &&& after.entries.drop_last() == before.entries
            &&& after.entries.last().project_root == directory
            &&& after.entries.last().target_path == real_target
            &&& after.total_bytes == before.total_bytes + after.entries.last().size_bytes
        }),
{
    let found = ScanEventView::Found { path: inside(directory, "Cargo.toml"@), is_file: true };
    let first = events.push(found);
    let second = first.push(ScanEventView::Inspected { is_directory: true });
    let third = second.push(ScanEventView::Resolved(real_target));
    let all = third.push(ScanEventView::Measured(measured));
    assert(first.drop_last() =~= events);
    assert(second.drop_last() =~= first);
    assert(third.drop_last() =~= second);
    assert(all.drop_last() =~= third);
    let before = scan_after(root, events);
    manifests_lead_to_their_targets(before, directory);
    only_real_directories_are_looked_up(
        scan_after(root, first),
        directory,
        inside(directory, "target"@),
        true,
    );
    seen_is_what_was_looked_up(root, events, real_target);
    let target = inside(directory, "target"@);
    assert(first.last() == found);
    assert(second.last() == (ScanEventView::Inspected { is_directory: true }));
    assert(third.last() == ScanEventView::Resolved(real_target));
    assert(all.last() == ScanEventView::Measured(measured));
    assert(scan_after(root, second).phase == (ScanPhaseView::Resolving {
        project_root: directory,
        target_path: target,
    }));
    assert(scan_after(root, second).seen_targets == before.seen_targets);
    assert(scan_after(root, third).phase == (ScanPhaseView::Measuring {
        project_root: directory,
        target_path: target,
        real_target,
    }));
    assert(scan_after(root, third).entries == before.entries);
    assert(scan_expects_all(root, first));
    assert(scan_expects_all(root, second));
    assert(scan_expects_all(root, third));
    assert(scan_expects_all(root, all));
    let last = measured_entry(directory, real_target, scan_after(root, third).root, measured);
    assert(scan_after(root, all).entries == before.entries.push(last));
    assert(scan_after(root, all).entries.drop_last() =~= before.entries);
}

/// Whether a point in time is the change of the directory itself, or the start of the Unix epoch
/// where that is not known, or the change of one of the files.
pub open spec fn is_a_change(measured: MeasurementView, time: Timestamp) -> bool {
    ||| measured.modified == Some(time)
    ||| measured.modified is None && time.secs == 0 && time.nanos == 0
    ||| exists|index: int|
        0 <= index < measured.files.len() && (#[trigger] measured.files[index]).modified == Some(
            time,
        )
}

/// Whether a point in time is not before another one.
pub open spec fn not_before(time: Timestamp, other: Timestamp) -> bool {
    time.secs > other.secs || (time.secs == other.secs && time.nanos >= other.nanos)
}

proof fn latest_is_latest(start: Timestamp, files: Seq<WalkedFile>)
    ensures
        not_before(latest_change(start, files), start),
        forall|index: int|
            0 <= index < files.len() && (#[trigger] files[index]).modified is Some ==> not_before(
                latest_change(start, files),
                files[index].modified->0,
            ),
        latest_change(start, files) == start || exists|index: int|
            0 <= index < files.len() && (#[trigger] files[index]).modified == Some(
                latest_change(start, files),
            ),
    decreases files.len(),
{
    if files.len() > 0 {
        let shorter = files.drop_last();
        let before = latest_change(start, shorter);
        latest_is_latest(start, shorter);
        assert forall|index: int|
            0 <= index < files.len() && (
            #[trigger] files[index]).modified is Some implies not_before(
            latest_change(start, files),
            files[index].modified->0,
        ) by {
            if index < shorter.len() {
                assert(shorter[index] == files[index]);
            }
        }
        if latest_change(start, files) == before && before != start {
            let index = choose|index: int|
                0 <= index < shorter.len() && (#[trigger] shorter[index]).modified == Some(before);
            assert(files[index] == shorter[index]);
        }
        assert(files[files.len() - 1] == files.last());
    }
}

/// The change of a measured directory is the latest of all changes that are known: those of the
/// directory itself and of everything in it.
pub proof fn changed_when_anything_in_it_last_changed(
    project_root: PathView,
    target_path: PathView,
    scan_root: PathView,
    measured: MeasurementView,
)
    ensures
        ({
            let time = measured_entry(project_root, target_path, scan_root, measured).modified_at;
            &&& is_a_change(measured, time)
            &&& measured.modified matches Some(own) ==> not_before(time, own)
            &&& measured.modified is None ==> not_before(time, Timestamp { secs: 0, nanos: 0 })
            &&& forall|index: int|
                0 <= index < measured.files.len() && (
                #[trigger] measured.files[index]).modified is Some ==> not_before(
                    time,
                    measured.files[index].modified->0,
                )
        }),
{
    let start = match measured.modified {
        Some(modified) => modified,
        None => Timestamp { secs: 0, nanos: 0 },
    };
    latest_is_latest(start, measured.files);
}

/// Each file adds its own length to the size of a directory, wherever it stands; directories and
/// links add nothing.
pub proof fn each_file_adds_its_length(
    modified: Option<Timestamp>,
    before: Seq<WalkedFile>,
    file: WalkedFile,
    behind: Seq<WalkedFile>,
)
    ensures
        (MeasurementView { modified, files: before + seq![file] + behind }).size() == (
        MeasurementView { modified, files: before + behind }).size() + if file.is_file {
            file.len as nat
        } else {
            0
        },
        (MeasurementView { modified, files: Seq::empty() }).size() == 0,
    decreases behind.len(),
{
    let all = before + seq![file] + behind;
    let others = before + behind;
    if behind.len() == 0 {
        assert(all.drop_last() =~= before);
        assert(others =~= before);
        assert(all.last() == file);
    } else {
        each_file_adds_its_length(modified, before, file, behind.drop_last());
        assert(all.drop_last() =~= before + seq![file] + behind.drop_last());
        assert(others.drop_last() =~= before + behind.drop_last());
        assert(all.last() == behind.last());
        assert(others.last() == behind.last());
    }
}

/// What is said of a measured directory: where it is, how it is called after its project, how
/// large it is, and that nothing has become of it yet.
pub proof fn measured_directory_is_described(
    outer: PathView,
    name: Seq<char>,
    target_path: PathView,
    scan_root: PathView,
    measured: MeasurementView,
)
    requires
        measured.size() <= u64::MAX,
    ensures
        ({
            let entry = measured_entry(inside(outer, name), target_path, scan_root, measured);
            &&& entry.project_root == inside(outer, name)
            &&& entry.target_path == target_path
            &&& entry.display_name == name
            &&& entry.relative_path == relative_path_text(scan_root, target_path)
            &&& entry.size_bytes == measured.size()
            &&& entry.original_size_bytes == measured.size()
            &&& entry.delete_status is Ready
        }),
{
    assert(inside(outer, name).last() == ComponentView::Normal(
        NameView { shown: name, raw: None },
    ));
}

/// A project whose directory has no name, or none that is text, is shown as a dot.
pub proof fn nameless_projects_are_dots(
    project_root: PathView,
    target_path: PathView,
    scan_root: PathView,
    measured: MeasurementView,
)
    requires
        forall|outer: PathView, name: Seq<char>| project_root != #[trigger] inside(outer, name),
    ensures
        measured_entry(project_root, target_path, scan_root, measured).display_name == "."@,
{
    if project_root.len() > 0 {
        let outer = project_root.drop_last();
        match project_root.last() {
            ComponentView::Normal(name) => {
                assert(project_root != inside(outer, name.shown));
                assert(project_root =~= outer.push(project_root.last()));
            },
            _ => {},
        }
    }
}

/// A path below the root is shown behind `./`, without the root; every other path is shown whole.
pub proof fn paths_are_shown_from_the_root(root: PathView, path: PathView, rest: PathView)
    ensures
        relative_path_text(root, root + rest) == "./"@ + path_text(rest),
        (forall|behind: PathView| path != #[trigger] (root + behind)) ==> relative_path_text(
            root,
            path,
        ) == path_text(path),
{
    assert((root + rest).subrange(0, root.len() as int) =~= root);
    assert((root + rest).skip(root.len() as int) =~= rest);
    if root.is_prefix_of(path) {
        assert(path =~= root + path.skip(root.len() as int));
    }
}

/// The text of a path is that of the directories around it, a slash, and its name; at the
/// beginning and behind the root there is no slash more.
pub proof fn names_are_joined_by_slashes(directory: PathView, name: Seq<char>)
    ensures
        directory.len() > 0 && !(directory.last() is Root) ==> path_text(inside(directory, name))
            == path_text(directory) + "/"@ + name,
        path_text(inside(Seq::empty(), name)) == name,
        path_text(inside(seq![ComponentView::Root], name)) == "/"@ + name,
        path_text(Seq::empty()) == Seq::<char>::empty(),
{
    let path = inside(directory, name);
    assert(path.drop_last() =~= directory);
    let plain = inside(Seq::empty(), name);
    assert(plain.drop_last() =~= Seq::<ComponentView>::empty());
    assert(plain.last() == ComponentView::Normal(NameView { shown: name, raw: None }));
    assert(path_text(plain) == path_text(plain.drop_last()) + name);
    assert(path_text(plain) =~= name);
    let root = seq![ComponentView::Root];
    assert(root.drop_last() =~= Seq::<ComponentView>::empty());
    assert(path_text(root) =~= "/"@);
    assert(inside(root, name).drop_last() =~= root);
}

/// The walk goes into every directory but those named `.git` or `target`; where it began, it goes
/// in whatever the name is; what is no directory is always met.
pub proof fn walk_keeps_out_of_two_names_only(
    root: PathView,
    path: PathView,
    outer: PathView,
    is_dir: bool,
)
    ensures
        descends(root, root, is_dir),
        descends(path, root, false),
        inside(outer, ".git"@) != root ==> !descends(inside(outer, ".git"@), root, true),
        inside(outer, "target"@) != root ==> !descends(inside(outer, "target"@), root, true),
        (forall|around: PathView|
            path != #[trigger] inside(around, ".git"@) && path != inside(around, "target"@))
            ==> descends(path, root, is_dir),
{
    if path.len() > 0 {
        let around = path.drop_last();
        assert(path =~= around.push(path.last()));
        assert(path != inside(around, ".git"@) || path == inside(around, ".git"@));
    }
}

/// A walk that fails, a real path that cannot be looked up and a directory that cannot be measured
/// each leave one warning, with the path where there is one, and the list as it was.
pub proof fn failures_leave_warnings(
    scan: ScanView,
    directory: PathView,
    target: PathView,
    real_target: PathView,
    reason: Seq<char>,
)
    ensures
        ({
            let (after, action) = scan.in_phase(ScanPhaseView::Walking).after_event(
                ScanEventView::WalkFailed(reason),
            );
            &&& action is Walk
            &&& after == (ScanView {
                warnings: scan.warnings.push(reason),
                phase: ScanPhaseView::Walking,
                ..scan
            })
        }),
        ({
            let (after, action) = scan.in_phase(
                ScanPhaseView::Resolving { project_root: directory, target_path: target },
            ).after_event(ScanEventView::ResolveFailed(reason));
            &&& action is Walk
            &&& after == (ScanView {
                warnings: scan.warnings.push(path_text(target) + ": "@ + reason),
                phase: ScanPhaseView::Walking,
                ..scan
            })
        }),
        ({
            let (after, action) = scan.in_phase(
                ScanPhaseView::Measuring {
                    project_root: directory,
                    target_path: target,
                    real_target,
                },
            ).after_event(ScanEventView::MeasureFailed(reason));
            &&& action is Walk
            &&& after == (ScanView {
                warnings: scan.warnings.push(path_text(target) + ": "@ + reason),
                phase: ScanPhaseView::Walking,
                ..scan
            })
        }),
{
}

/// A directory that was measured is put behind the others, and its progress is reported: how many
/// there are now, what they take up, and which one it was.
pub proof fn measured_directories_are_reported(
    scan: ScanView,
    directory: PathView,
    target: PathView,
    real_target: PathView,
    measured: MeasurementView,
)
    requires
        scan.wf(),
        scan.phase == (ScanPhaseView::Measuring {
            project_root: directory,
            target_path: target,
            real_target,
        }),
        scan.expects(ScanEventView::Measured(measured)),
    ensures
        ({
            let (after, action) = scan.after_event(ScanEventView::Measured(measured));
            &&& after.entries.drop_last() == scan.entries
            &&& after.entries.len() == scan.entries.len() + 1
            &&& after.entries.last() == measured_entry(directory, real_target, scan.root, measured)
            &&& after.total_bytes == scan.total_bytes + measured.size()
            &&& after.warnings == scan.warnings
            &&& action == ScanActionView::Report(
                MessageView::ScanProgress {
                    discovered: (scan.entries.len() + 1) as usize,
                    total_bytes: (scan.total_bytes + measured.size()) as u64,
                    current_path: real_target,
                },
            )
        }),
{
    let after = scan.after_event(ScanEventView::Measured(measured)).0;
    assert(after.entries.drop_last() =~= scan.entries);
}

/// At its beginning a scan has found nothing, and at its end it reports what it has found and
/// warned of.
pub proof fn scans_begin_empty_and_report_all(
    root: PathView,
    scan: ScanView,
    elapsed: TimeSpan,
)
    ensures
        ScanView::initial(root).root == root,
        ScanView::initial(root).entries.len() == 0,
        ScanView::initial(root).warnings.len() == 0,
        ScanView::initial(root).total_bytes == 0,
        ScanView::initial(root).phase is Walking,
        forall|path: PathView| !ScanView::initial(root).seen_targets.contains(path),
        scan.report(elapsed) == (MessageView::ScanComplete {
            entries: scan.entries,
            warnings: scan.warnings,
            elapsed,
        }),
{
}

} // verus!
