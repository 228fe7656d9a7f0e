//! The search for `target` directories below a root: which entries of the file system are looked
//! at, and what is made of them.

use crate::entry::{entry_views, DeleteStatus, EntryView, StatusView, TargetEntry};
use crate::message::{text_views, MessageView, WorkerMessage};
use crate::path::{
    child, display_relative_path, file_name, file_name_is, named, parent, path_text,
    relative_path_text, FilePath, PathView,
};
use crate::path_set::PathSet;
use crate::time::{later, TimeSpan, Timestamp};
use crate::totals::{original_total, size_total};
use vstd::prelude::*;

verus! {

/// Whether a search goes into an entry of the file system: it keeps out of directories named
/// `.git` or `target`, unless the search began there.
pub open spec fn descends(path: PathView, root: PathView, is_dir: bool) -> bool {
    path == root || !is_dir || !(file_name_is(path, ".git"@) || file_name_is(path, "target"@))
}

/// Tells whether a search goes into an entry of the file system.
pub fn should_descend(path: &FilePath, root: &FilePath, is_dir: bool) -> (result: bool)
    ensures
        result == descends(path@, root@, is_dir),
{
    if path.same(root) {
        return true;
    }
    if !is_dir {
        return true;
    }
    !(path.file_name_is(".git") || path.file_name_is("target"))
}

/// One entry of the file system inside a directory that is measured.
#[derive(Clone, Copy, Debug, PartialEq, Eq, Structural)]
pub struct WalkedFile {
    pub is_file: bool,
    pub len: u64,
    /// When it was last changed, where that is known.
    pub modified: Option<Timestamp>,
}

/// What was found in a directory that is measured.
pub struct Measurement {
    /// When the directory was last changed, where that is known.
    pub modified: Option<Timestamp>,
    pub files: Vec<WalkedFile>,
}

/// What a measurement holds.
#[verifier::ext_equal]
pub struct MeasurementView {
    pub modified: Option<Timestamp>,
    pub files: Seq<WalkedFile>,
}

impl View for Measurement {
    type V = MeasurementView;

    open spec fn view(&self) -> MeasurementView {
        MeasurementView { modified: self.modified, files: self.files@ }
    }
}

/// The sum of the lengths of the files among some entries of the file system.
pub open spec fn files_total(files: Seq<WalkedFile>) -> nat
    decreases files.len(),
{
    if files.len() == 0 {
        0
    } else if files.last().is_file {
        files_total(files.drop_last()) + files.last().len as nat
    } else {
        files_total(files.drop_last())
    }
}

/// The latest change of some entries of the file system, and no earlier than `start`.
pub open spec fn latest_change(start: Timestamp, files: Seq<WalkedFile>) -> Timestamp
    decreases files.len(),
{
    if files.len() == 0 {
        start
    } else {
        let before = latest_change(start, files.drop_last());
        match files.last().modified {
            Some(modified) => later(before, modified),
            None => before,
        }
    }
}

impl MeasurementView {
    /// The bytes in the directory.
    pub open spec fn size(self) -> nat {
        files_total(self.files)
    }

    /// The last change of the directory or of anything in it; the start of the Unix epoch where
    /// nothing is known of the directory itself.
    pub open spec fn last_change(self) -> Timestamp {
        latest_change(
            match self.modified {
                Some(modified) => modified,
                None => Timestamp { secs: 0, nanos: 0 },
            },
            self.files,
        )
    }
}

/// The name under which a project is shown: that of its directory, or `.`.
pub open spec fn project_name(project_root: PathView) -> Seq<char> {
    match file_name(project_root) {
        Some(name) => match name.text() {
            Some(text) => text,
            None => "."@,
        },
        None => "."@,
    }
}

/// The entry for a directory that was measured.
pub open spec fn measured_entry(
    project_root: PathView,
    target_path: PathView,
    scan_root: PathView,
    measured: MeasurementView,
) -> EntryView {
    EntryView {
        project_root,
        target_path,
        display_name: project_name(project_root),
        relative_path: relative_path_text(scan_root, target_path),
        size_bytes: measured.size() as u64,
        original_size_bytes: measured.size() as u64,
        modified_at: measured.last_change(),
        delete_status: StatusView::Ready,
    }
}

proof fn files_total_grows(files: Seq<WalkedFile>, count: int)
    requires
        0 <= count <= files.len(),
    ensures
        files_total(files.take(count)) <= files_total(files),
    decreases files.len(),
{
    if count == files.len() {
        assert(files.take(count) =~= files);
    } else {
        files_total_grows(files.drop_last(), count);
        assert(files.drop_last().take(count) =~= files.take(count));
    }
}

/// Makes the entry for a directory that was measured.
pub fn measure_target(
    project_root: &FilePath,
    target_path: &FilePath,
    scan_root: &FilePath,
    measured: &Measurement,
) -> (result: TargetEntry)
    requires
        measured@.size() <= u64::MAX,
    ensures
        result@ == measured_entry(project_root@, target_path@, scan_root@, measured@),
{
    let ghost files = measured.files@;
    let start = match measured.modified {
        Some(modified) => modified,
        None => Timestamp::epoch(),
    };
    let mut size_bytes: u64 = 0;
    let mut modified_at = start;
    let mut index: usize = 0;
    while index < measured.files.len()
        invariant
            index <= files.len(),
            files == measured.files@,
            files_total(files) <= u64::MAX,
            size_bytes == files_total(files.take(index as int)),
            modified_at == latest_change(start, files.take(index as int)),
        decreases files.len() - index,
    {
        proof {
            files_total_grows(files, index + 1);
            assert(files.take(index + 1).drop_last() =~= files.take(index as int));
        }
        let file = measured.files[index];
        if file.is_file {
            size_bytes += file.len;
        }
        if let Some(modified) = file.modified {
            if modified_at.is_before(&modified) {
                modified_at = modified;
            }
        }
        index += 1;
    }
    assert(files.take(files.len() as int) =~= files);
    let own_name = match project_root.file_name() {
        Some(name) => name.to_text(),
        None => None,
    };
    let display_name = match own_name {
        Some(text) => text,
        None => ".".to_owned(),
    };
    TargetEntry {
        project_root: project_root.clone(),
        target_path: target_path.clone(),
        display_name,
        relative_path: display_relative_path(scan_root, target_path),
        size_bytes,
        original_size_bytes: size_bytes,
        modified_at,
        delete_status: DeleteStatus::Ready,
    }
}

/// How far the look at one project has come.
pub enum ScanPhase {
    /// The next entry of the file system is waited for.
    Walking,
    /// Whether the project has a directory for its results is being found out.
    Inspecting { project_root: FilePath, target_path: FilePath },
    /// The real path of that directory is being looked up.
    Resolving { project_root: FilePath, target_path: FilePath },
    /// That directory is being measured.
    Measuring { project_root: FilePath, target_path: FilePath, real_target: FilePath },
}

/// What a phase holds.
#[verifier::ext_equal]
pub enum ScanPhaseView {
    Walking,
    Inspecting { project_root: PathView, target_path: PathView },
    Resolving { project_root: PathView, target_path: PathView },
    Measuring { project_root: PathView, target_path: PathView, real_target: PathView },
}

impl View for ScanPhase {
    type V = ScanPhaseView;

    open spec fn view(&self) -> ScanPhaseView {
        match self {
            ScanPhase::Walking => ScanPhaseView::Walking,
            ScanPhase::Inspecting { project_root, target_path } => ScanPhaseView::Inspecting {
                project_root: project_root@,
                target_path: target_path@,
            },
            ScanPhase::Resolving { project_root, target_path } => ScanPhaseView::Resolving {
                project_root: project_root@,
                target_path: target_path@,
            },
            ScanPhase::Measuring { project_root, target_path, real_target } => {
                ScanPhaseView::Measuring {
                    project_root: project_root@,
                    target_path: target_path@,
                    real_target: real_target@,
                }
            },
        }
    }
}

/// What the file system answered to the last step.
pub enum ScanEvent {
    /// The next entry below the root.
    Found { path: FilePath, is_file: bool },
    /// An entry below the root could not be read.
    WalkFailed(String),
    /// Whether the path that was asked for is a directory, and not a link to one.
    Inspected { is_directory: bool },
    /// The real path that was looked up.
    Resolved(FilePath),
    /// The real path could not be looked up.
    ResolveFailed(String),
    /// What was found in the directory.
    Measured(Measurement),
    /// The directory could not be measured.
    MeasureFailed(String),
}

/// What an answer holds.
#[verifier::ext_equal]
pub enum ScanEventView {
    Found { path: PathView, is_file: bool },
    WalkFailed(Seq<char>),
    Inspected { is_directory: bool },
    Resolved(PathView),
    ResolveFailed(Seq<char>),
    Measured(MeasurementView),
    MeasureFailed(Seq<char>),
}

impl View for ScanEvent {
    type V = ScanEventView;

    open spec fn view(&self) -> ScanEventView {
        match self {
            ScanEvent::Found { path, is_file } => ScanEventView::Found {
                path: path@,
                is_file: *is_file,
            },
            ScanEvent::WalkFailed(reason) => ScanEventView::WalkFailed(reason@),
            ScanEvent::Inspected { is_directory } => ScanEventView::Inspected {
                is_directory: *is_directory,
            },
            ScanEvent::Resolved(path) => ScanEventView::Resolved(path@),
            ScanEvent::ResolveFailed(reason) => ScanEventView::ResolveFailed(reason@),
            ScanEvent::Measured(measured) => ScanEventView::Measured(measured@),
            ScanEvent::MeasureFailed(reason) => ScanEventView::MeasureFailed(reason@),
        }
    }
}

/// The next step of a scan.
pub enum ScanAction {
    /// Go on to the next entry below the root.
    Walk,
    /// Find out whether a path is a directory, and not a link to one.
    Inspect(FilePath),
    /// Look up the real path of a path.
    Resolve(FilePath),
    /// Measure a directory.
    Measure(FilePath),
    /// Report a directory that was found, then go on to the next entry.
    Report(WorkerMessage),
}

/// What a step holds.
#[verifier::ext_equal]
pub enum ScanActionView {
    Walk,
    Inspect(PathView),
    Resolve(PathView),
    Measure(PathView),
    Report(MessageView),
}

impl View for ScanAction {
    type V = ScanActionView;

    open spec fn view(&self) -> ScanActionView {
        match self {
            ScanAction::Walk => ScanActionView::Walk,
            ScanAction::Inspect(path) => ScanActionView::Inspect(path@),
            ScanAction::Resolve(path) => ScanActionView::Resolve(path@),
            ScanAction::Measure(path) => ScanActionView::Measure(path@),
            ScanAction::Report(message) => ScanActionView::Report(message@),
        }
    }
}

/// A scan for `target` directories below a root.
pub struct Scan {
    pub root: FilePath,
    pub entries: Vec<TargetEntry>,
    pub warnings: Vec<String>,
    pub seen_targets: PathSet,
    pub total_bytes: u64,
    pub phase: ScanPhase,
}

/// What a scan holds.
#[verifier::ext_equal]
pub struct ScanView {
    pub root: PathView,
    pub entries: Seq<EntryView>,
    pub warnings: Seq<Seq<char>>,
    pub seen_targets: Set<PathView>,
    pub total_bytes: u64,
    pub phase: ScanPhaseView,
}

impl View for Scan {
    type V = ScanView;

    open spec fn view(&self) -> ScanView {
        ScanView {
            root: self.root@,
            entries: entry_views(self.entries@),
            warnings: text_views(self.warnings@),
            seen_targets: self.seen_targets@,
            total_bytes: self.total_bytes,
            phase: self.phase@,
        }
    }
}

/// A warning about a path.
pub open spec fn path_warning(path: PathView, reason: Seq<char>) -> Seq<char> {
    path_text(path) + ": "@ + reason
}

impl ScanView {
    /// What every step keeps: the total is the sum of the sizes that were found, no directory was
    /// found twice, and the directory that is being measured was not found before.
    pub open spec fn wf(self) -> bool {
        &&& self.entries.len() <= usize::MAX
        &&& self.total_bytes == size_total(self.entries)
        &&& self.total_bytes == original_total(self.entries)
        &&& forall|index: int|
            0 <= index < self.entries.len() ==> self.seen_targets.contains(
                (#[trigger] self.entries[index]).target_path,
            )
        &&& forall|left: int, right: int|
            0 <= left < right < self.entries.len() ==> (#[trigger] self.entries[left]).target_path
                != (#[trigger] self.entries[right]).target_path
        &&& self.phase matches ScanPhaseView::Measuring { real_target, .. }
            ==> self.seen_targets.contains(real_target) && forall|index: int|
            0 <= index < self.entries.len() ==> (#[trigger] self.entries[index]).target_path
                != real_target
    }

    /// A scan that has just been started.
    pub open spec fn initial(root: PathView) -> ScanView {
        ScanView {
            root,
            entries: Seq::empty(),
            warnings: Seq::empty(),
            seen_targets: Set::empty(),
            total_bytes: 0,
            phase: ScanPhaseView::Walking,
        }
    }

    /// Whether an answer belongs to the step that the scan has come to, and what it found can be
    /// added up and counted.
    pub open spec fn expects(self, event: ScanEventView) -> bool {
        match self.phase {
            ScanPhaseView::Walking => event is Found || event is WalkFailed,
            ScanPhaseView::Inspecting { .. } => event is Inspected,
            ScanPhaseView::Resolving { .. } => event is Resolved || event is ResolveFailed,
            ScanPhaseView::Measuring { .. } => {
                ||| event is MeasureFailed
                ||| event matches ScanEventView::Measured(measured) && self.total_bytes
                    + measured.size() <= u64::MAX && self.entries.len() < usize::MAX
            },
        }
    }

    /// The scan in another phase.
    pub open spec fn in_phase(self, phase: ScanPhaseView) -> ScanView {
        ScanView { phase, ..self }
    }

    /// The scan at the next entry of the file system.
    pub open spec fn walking(self) -> (ScanView, ScanActionView) {
        (self.in_phase(ScanPhaseView::Walking), ScanActionView::Walk)
    }

    /// The scan at the next entry of the file system, with one more warning.
    pub open spec fn warned(self, warning: Seq<char>) -> (ScanView, ScanActionView) {
        ScanView { warnings: self.warnings.push(warning), ..self }.walking()
    }

    /// The scan after an entry of the file system: a file named `Cargo.toml` makes its directory
    /// a project.
    pub open spec fn after_found(self, path: PathView, is_file: bool) -> (
        ScanView,
        ScanActionView,
    ) {
        if is_file && file_name_is(path, "Cargo.toml"@) {
            let project_root = parent(path)->0;
            let target_path = child(project_root, named("target"@));
            (
                self.in_phase(ScanPhaseView::Inspecting { project_root, target_path }),
                ScanActionView::Inspect(target_path),
            )
        } else {
            self.walking()
        }
    }

    /// The scan after the real path of a directory was looked up: one that was seen before is
    /// passed over.
    pub open spec fn after_resolved(
        self,
        project_root: PathView,
        target_path: PathView,
        real_target: PathView,
    ) -> (ScanView, ScanActionView) {
        if self.seen_targets.contains(real_target) {
            self.walking()
        } else {
            (
                ScanView {
                    seen_targets: self.seen_targets.insert(real_target),
                    phase: ScanPhaseView::Measuring { project_root, target_path, real_target },
                    ..self
                },
                ScanActionView::Measure(real_target),
            )
        }
    }

    /// The scan after a directory was measured: it is put on the list and reported.
    pub open spec fn after_measured(
        self,
        project_root: PathView,
        real_target: PathView,
        measured: MeasurementView,
    ) -> (ScanView, ScanActionView) {
        let entry = measured_entry(project_root, real_target, self.root, measured);
        let entries = self.entries.push(entry);
        let total_bytes = (self.total_bytes + entry.size_bytes) as u64;
        (
            ScanView { entries, total_bytes, phase: ScanPhaseView::Walking, ..self },
            ScanActionView::Report(
                MessageView::ScanProgress {
                    discovered: entries.len() as usize,
                    total_bytes,
                    current_path: real_target,
                },
            ),
        )
    }

    /// The scan after an answer, and its next step.
    pub open spec fn after_event(self, event: ScanEventView) -> (ScanView, ScanActionView) {
        match (self.phase, event) {
            (
                ScanPhaseView::Walking,
                ScanEventView::Found { path, is_file },
            ) => self.after_found(path, is_file),
            (ScanPhaseView::Walking, ScanEventView::WalkFailed(reason)) => self.warned(reason),
            (
                ScanPhaseView::Inspecting { project_root, target_path },
                ScanEventView::Inspected { is_directory },
            ) => if is_directory {
                (
                    self.in_phase(ScanPhaseView::Resolving { project_root, target_path }),
                    ScanActionView::Resolve(target_path),
                )
            } else {
                self.walking()
            },
            (
                ScanPhaseView::Resolving { project_root, target_path },
                ScanEventView::Resolved(real_target),
            ) => self.after_resolved(project_root, target_path, real_target),
            (
                ScanPhaseView::Resolving { target_path, .. },
                ScanEventView::ResolveFailed(reason),
            ) => self.warned(path_warning(target_path, reason)),
            (
                ScanPhaseView::Measuring { project_root, real_target, .. },
                ScanEventView::Measured(measured),
            ) => self.after_measured(project_root, real_target, measured),
            (
                ScanPhaseView::Measuring { target_path, .. },
                ScanEventView::MeasureFailed(reason),
            ) => self.warned(path_warning(target_path, reason)),
            _ => self.walking(),
        }
    }

    /// The report of a scan that has come to its end.
    pub open spec fn report(self, elapsed: TimeSpan) -> MessageView {
        MessageView::ScanComplete { entries: self.entries, warnings: self.warnings, elapsed }
    }
}

/// A step keeps what every step keeps.
pub proof fn scan_step_keeps_wf(scan: ScanView, event: ScanEventView)
    requires
        scan.wf(),
        scan.expects(event),
    ensures
        scan.after_event(event).0.wf(),
{
    match (scan.phase, event) {
        (
            ScanPhaseView::Measuring { project_root, real_target, .. },
            ScanEventView::Measured(measured),
        ) => {
            let after = scan.after_event(event).0;
            assert(after.entries.drop_last() =~= scan.entries);
        },
        _ => {},
    }
}

impl Scan {
    /// Starts a scan.
    pub fn new(root: FilePath) -> (result: Scan)
        ensures
            result@ == ScanView::initial(root@),
            result@.wf(),
    {
        let result = Scan {
            root,
            entries: Vec::new(),
            warnings: Vec::new(),
            seen_targets: PathSet::new(),
            total_bytes: 0,
            phase: ScanPhase::Walking,
        };
        assert(result@ =~= ScanView::initial(root@));
        result
    }

    /// Puts a warning on the list, and goes on to the next entry.
    fn warn(&mut self, warning: String) -> (result: ScanAction)
        ensures
            (final(self)@, result@) == old(self)@.warned(warning@),
    {
        let ghost before = self@.warnings;
        self.warnings.push(warning);
        self.phase = ScanPhase::Walking;
        assert(self@.warnings =~= before.push(warning@));
        ScanAction::Walk
    }

    /// Takes the next entry of the file system.
    fn found(&mut self, path: FilePath, is_file: bool) -> (result: ScanAction)
        ensures
            (final(self)@, result@) == old(self)@.after_found(path@, is_file),
    {
        if is_file && path.file_name_is("Cargo.toml") {
            if let Some(project_root) = path.parent() {
                let target_path = project_root.child("target");
                let action = ScanAction::Inspect(target_path.clone());
                self.phase = ScanPhase::Inspecting { project_root, target_path };
                return action;
            }
        }
        self.phase = ScanPhase::Walking;
        ScanAction::Walk
    }

    /// Goes on after an answer of the file system.
    pub fn step(&mut self, event: ScanEvent) -> (result: ScanAction)
        requires
            old(self)@.wf(),
            old(self)@.expects(event@),
        ensures
            (final(self)@, result@) == old(self)@.after_event(event@),
            final(self)@.wf(),
    {
        proof {
            scan_step_keeps_wf(self@, event@);
        }
        let mut phase = ScanPhase::Walking;
        std::mem::swap(&mut phase, &mut self.phase);
        match (phase, event) {
            (ScanPhase::Walking, ScanEvent::Found { path, is_file }) => self.found(path, is_file),
            (ScanPhase::Walking, ScanEvent::WalkFailed(reason)) => self.warn(reason),
            (
                ScanPhase::Inspecting { project_root, target_path },
                ScanEvent::Inspected { is_directory },
            ) => {
                if is_directory {
                    let action = ScanAction::Resolve(target_path.clone());
                    self.phase = ScanPhase::Resolving { project_root, target_path };
                    action
                } else {
                    ScanAction::Walk
                }
            },
            (
                ScanPhase::Resolving { project_root, target_path },
                ScanEvent::Resolved(real_target),
            ) => {
                if self.seen_targets.insert(real_target.clone()) {
                    let action = ScanAction::Measure(real_target.clone());
                    self.phase = ScanPhase::Measuring { project_root, target_path, real_target };
                    action
                } else {
                    assert(self@.seen_targets =~= old(self)@.seen_targets);
                    ScanAction::Walk
                }
            },
            (
                ScanPhase::Resolving { project_root: _, target_path },
                ScanEvent::ResolveFailed(reason),
            ) => self.warn(target_path.to_text().concat(": ").concat(reason.as_str())),
            (
                ScanPhase::Measuring { project_root, target_path: _, real_target },
                ScanEvent::Measured(measured),
            ) => {
                let entry = measure_target(&project_root, &real_target, &self.root, &measured);
                let ghost before = self@.entries;
                self.total_bytes = self.total_bytes + entry.size_bytes;
                self.entries.push(entry);
                assert(self@.entries =~= before.push(entry@));
                ScanAction::Report(
                    WorkerMessage::ScanProgress {
                        discovered: self.entries.len(),
                        total_bytes: self.total_bytes,
                        current_path: real_target,
                    },
                )
            },
            (
                ScanPhase::Measuring { project_root: _, target_path, real_target: _ },
                ScanEvent::MeasureFailed(reason),
            ) => self.warn(target_path.to_text().concat(": ").concat(reason.as_str())),
            _ => ScanAction::Walk,
        }
    }

    /// Tells whether what was found in a directory can be added up and counted.
    pub fn has_room_for(&self, measured: &Measurement) -> (result: bool)
        ensures
            result == (self@.total_bytes + measured@.size() <= u64::MAX && self@.entries.len()
                < usize::MAX),
    {
        let ghost files = measured.files@;
        let mut total: u64 = self.total_bytes;
        let mut index: usize = 0;
        while index < measured.files.len()
            invariant
                index <= files.len(),
                files == measured.files@,
                total == self.total_bytes + files_total(files.take(index as int)),
            decreases files.len() - index,
        {
            proof {
                files_total_grows(files, index + 1);
                assert(files.take(index + 1).drop_last() =~= files.take(index as int));
            }
            if measured.files[index].is_file {
                match total.checked_add(measured.files[index].len) {
                    Some(sum) => {
                        total = sum;
                    },
                    None => {
                        return false;
                    },
                }
            }
            index += 1;
        }
        assert(files.take(files.len() as int) =~= files);
        self.entries.len() < usize::MAX
    }

    /// Ends the scan with its report.
    pub fn finish(self, elapsed: TimeSpan) -> (result: WorkerMessage)
        requires
            self@.wf(),
        ensures
            result@ == self@.report(elapsed),
            result@.fits(),
    {
        WorkerMessage::ScanComplete { entries: self.entries, warnings: self.warnings, elapsed }
    }
}

} // verus!
