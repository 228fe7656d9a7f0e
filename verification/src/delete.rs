//! The removal of a directory: which steps on the file system it takes, and in which order.

use crate::entry::{DeleteStatus, StatusView};
use crate::message::{MessageView, WorkerMessage};
use crate::path::{file_name_is, FilePath, PathView};
use vstd::prelude::*;

verus! {

/// How far a removal has come.
pub enum DeletePhase {
    /// The real path of the root is being looked up.
    ResolvingRoot,
    /// The real path of the directory is being looked up.
    ResolvingTarget { real_root: FilePath },
    /// The directory is being removed.
    Removing,
    /// The end of the removal was reported.
    Finished,
}

/// What a phase holds.
#[verifier::ext_equal]
pub enum DeletePhaseView {
    ResolvingRoot,
    ResolvingTarget { real_root: PathView },
    Removing,
    Finished,
}

impl View for DeletePhase {
    type V = DeletePhaseView;

    open spec fn view(&self) -> DeletePhaseView {
        match self {
            DeletePhase::ResolvingRoot => DeletePhaseView::ResolvingRoot,
            DeletePhase::ResolvingTarget { real_root } => DeletePhaseView::ResolvingTarget {
                real_root: real_root@,
            },
            DeletePhase::Removing => DeletePhaseView::Removing,
            DeletePhase::Finished => DeletePhaseView::Finished,
        }
    }
}

/// What the file system answered to the last step.
pub enum DeleteEvent {
    /// The real path that was looked up.
    Resolved(FilePath),
    /// The directory is gone.
    Removed,
    /// The step failed for the given reason.
    Failed(String),
}

/// What an answer holds.
#[verifier::ext_equal]
pub enum DeleteEventView {
    Resolved(PathView),
    Removed,
    Failed(Seq<char>),
}

impl View for DeleteEvent {
    type V = DeleteEventView;

    open spec fn view(&self) -> DeleteEventView {
        match self {
            DeleteEvent::Resolved(path) => DeleteEventView::Resolved(path@),
            DeleteEvent::Removed => DeleteEventView::Removed,
            DeleteEvent::Failed(reason) => DeleteEventView::Failed(reason@),
        }
    }
}

/// The next step of a removal.
pub enum DeleteAction {
    /// Look up the real path of a path.
    Resolve(FilePath),
    /// Remove a directory with all that is in it.
    Remove(FilePath),
    /// Report the end of the removal.
    Report(WorkerMessage),
}

/// What a step holds.
#[verifier::ext_equal]
pub enum DeleteActionView {
    Resolve(PathView),
    Remove(PathView),
    Report(MessageView),
}

impl View for DeleteAction {
    type V = DeleteActionView;

    open spec fn view(&self) -> DeleteActionView {
        match self {
            DeleteAction::Resolve(path) => DeleteActionView::Resolve(path@),
            DeleteAction::Remove(path) => DeleteActionView::Remove(path@),
            DeleteAction::Report(message) => DeleteActionView::Report(message@),
        }
    }
}

/// The removal of a directory below a root.
pub struct Deletion {
    pub root: FilePath,
    pub path: FilePath,
    pub phase: DeletePhase,
}

/// What a removal holds.
#[verifier::ext_equal]
pub struct DeletionView {
    pub root: PathView,
    pub path: PathView,
    pub phase: DeletePhaseView,
}

impl View for Deletion {
    type V = DeletionView;

    open spec fn view(&self) -> DeletionView {
        DeletionView { root: self.root@, path: self.path@, phase: self.phase@ }
    }
}

impl DeletionView {
    /// The removal in another phase.
    pub open spec fn in_phase(self, phase: DeletePhaseView) -> DeletionView {
        DeletionView { phase, ..self }
    }

    /// The removal at its end, with the report of a status.
    pub open spec fn finished(self, status: StatusView) -> (DeletionView, DeleteActionView) {
        (
            self.in_phase(DeletePhaseView::Finished),
            DeleteActionView::Report(MessageView::DeleteProgress { path: self.path, status }),
        )
    }

    /// How a removal begins. A directory that is not named `target` is never touched.
    pub open spec fn begun(root: PathView, path: PathView) -> (DeletionView, DeleteActionView) {
        let deletion = DeletionView { root, path, phase: DeletePhaseView::ResolvingRoot };
        if file_name_is(path, "target"@) {
            (deletion, DeleteActionView::Resolve(root))
        } else {
            deletion.finished(StatusView::Failed("refusing to delete a non-target directory"@))
        }
    }

    /// Whether an answer belongs to the step that the removal has come to.
    pub open spec fn expects(self, event: DeleteEventView) -> bool {
        match self.phase {
            DeletePhaseView::ResolvingRoot => !(event is Removed),
            DeletePhaseView::ResolvingTarget { .. } => !(event is Removed),
            DeletePhaseView::Removing => !(event is Resolved),
            DeletePhaseView::Finished => false,
        }
    }

    /// How a removal goes on after an answer. The directory is removed only where its real path
    /// lies below the real path of the root.
    pub open spec fn after_event(self, event: DeleteEventView) -> (DeletionView, DeleteActionView) {
        match event {
            DeleteEventView::Failed(reason) => self.finished(StatusView::Failed(reason)),
            DeleteEventView::Removed => self.finished(StatusView::Deleted),
            DeleteEventView::Resolved(real_path) => match self.phase {
                DeletePhaseView::ResolvingTarget { real_root } => {
                    if real_root.is_prefix_of(real_path) {
                        (
                            self.in_phase(DeletePhaseView::Removing),
                            DeleteActionView::Remove(self.path),
                        )
                    } else {
                        self.finished(
                            StatusView::Failed(
                                "refusing to delete a target outside the scan root"@,
                            ),
                        )
                    }
                },
                _ => (
                    self.in_phase(DeletePhaseView::ResolvingTarget { real_root: real_path }),
                    DeleteActionView::Resolve(self.path),
                ),
            },
        }
    }

    /// How far a removal has come, and its next step, after a number of answers.
    pub open spec fn after_events(
        root: PathView,
        path: PathView,
        events: Seq<DeleteEventView>,
    ) -> (DeletionView, DeleteActionView)
        decreases events.len(),
    {
        if events.len() == 0 {
            DeletionView::begun(root, path)
        } else {
            DeletionView::after_events(root, path, events.drop_last()).0.after_event(events.last())
        }
    }

    /// Whether each of a number of answers belonged to the step that it answered.
    pub open spec fn expects_all(
        root: PathView,
        path: PathView,
        events: Seq<DeleteEventView>,
    ) -> bool
        decreases events.len(),
    {
        events.len() == 0 || (DeletionView::expects_all(root, path, events.drop_last())
            && DeletionView::after_events(root, path, events.drop_last()).0.expects(events.last()))
    }
}

impl Deletion {
    /// Begins a removal. A directory that is not named `target` is refused at once.
    pub fn begin(root: FilePath, path: FilePath) -> (result: (Deletion, DeleteAction))
        ensures
            (result.0@, result.1@) == DeletionView::begun(root@, path@),
    {
        let mut deletion = Deletion { root, path, phase: DeletePhase::ResolvingRoot };
        if deletion.path.file_name_is("target") {
            let action = DeleteAction::Resolve(deletion.root.clone());
            (deletion, action)
        } else {
            let action = deletion.finish(
                DeleteStatus::Failed("refusing to delete a non-target directory".to_owned()),
            );
            (deletion, action)
        }
    }

    /// Ends the removal with a status.
    fn finish(&mut self, status: DeleteStatus) -> (result: DeleteAction)
        ensures
            (final(self)@, result@) == old(self)@.finished(status@),
    {
        self.phase = DeletePhase::Finished;
        DeleteAction::Report(WorkerMessage::DeleteProgress { path: self.path.clone(), status })
    }

    /// Goes on after an answer of the file system.
    pub fn step(&mut self, event: DeleteEvent) -> (result: DeleteAction)
        requires
            old(self)@.expects(event@),
        ensures
            (final(self)@, result@) == old(self)@.after_event(event@),
    {
        match event {
            DeleteEvent::Failed(reason) => self.finish(DeleteStatus::Failed(reason)),
            DeleteEvent::Removed => self.finish(DeleteStatus::Deleted),
            DeleteEvent::Resolved(real_path) => {
                let inside = match &self.phase {
                    DeletePhase::ResolvingTarget { real_root } => Some(
                        real_path.starts_with(real_root),
                    ),
                    _ => None,
                };
                match inside {
                    None => {
                        self.phase = DeletePhase::ResolvingTarget { real_root: real_path };
                        DeleteAction::Resolve(self.path.clone())
                    },
                    Some(true) => {
                        self.phase = DeletePhase::Removing;
                        DeleteAction::Remove(self.path.clone())
                    },
                    Some(false) => self.finish(
                        DeleteStatus::Failed(
                            "refusing to delete a target outside the scan root".to_owned(),
                        ),
                    ),
                }
            },
        }
    }
}

proof fn phases_follow_answers(root: PathView, path: PathView, events: Seq<DeleteEventView>)
    requires
        DeletionView::expects_all(root, path, events),
    ensures
        ({
            let deletion = DeletionView::after_events(root, path, events).0;
            &&& deletion.root == root
            &&& deletion.path == path
            &&& !(deletion.phase is Finished) ==> file_name_is(path, "target"@)
            &&& deletion.phase is ResolvingRoot ==> events.len() == 0
            &&& deletion.phase matches DeletePhaseView::ResolvingTarget { real_root }
                ==> events == seq![DeleteEventView::Resolved(real_root)]
            &&& deletion.phase is Removing ==> events.len() == 2
        }),
    decreases events.len(),
{
    if events.len() > 0 {
        phases_follow_answers(root, path, events.drop_last());
        assert(events =~= events.drop_last().push(events.last()));
    }
}

/// Whatever the file system answers, a removal touches nothing but the directory that it was
/// begun for, and that only where the directory is named `target` and its real path lies below
/// the real path of the root.
pub proof fn only_targets_below_root_are_removed(
    root: PathView,
    path: PathView,
    events: Seq<DeleteEventView>,
    removed: PathView,
)
    requires
        DeletionView::expects_all(root, path, events),
        DeletionView::after_events(root, path, events).1 == DeleteActionView::Remove(removed),
    ensures
        removed == path,
        file_name_is(path, "target"@),
        events.len() == 2,
        events[0] matches DeleteEventView::Resolved(real_root)
            && events[1] matches DeleteEventView::Resolved(real_path)
            && real_root.is_prefix_of(real_path),
{
    phases_follow_answers(root, path, events);
    if events.len() > 0 {
        phases_follow_answers(root, path, events.drop_last());
    }
}

/// A directory that is not named `target` is refused before the file system is asked anything.
pub proof fn other_directories_are_refused(root: PathView, path: PathView)
    requires
        !file_name_is(path, "target"@),
    ensures
        DeletionView::begun(root, path).0.phase is Finished,
        DeletionView::begun(root, path).1 == DeleteActionView::Report(
            MessageView::DeleteProgress {
                path,
                status: StatusView::Failed("refusing to delete a non-target directory"@),
            },
        ),
{
}

/// The report of a removal names the directory that it was begun for, and says that it is gone
/// only after the file system has said so.
pub proof fn report_tells_the_outcome(
    root: PathView,
    path: PathView,
    events: Seq<DeleteEventView>,
    reported: PathView,
    status: StatusView,
)
    requires
        DeletionView::expects_all(root, path, events),
        DeletionView::after_events(root, path, events).1 == DeleteActionView::Report(
            (MessageView::DeleteProgress { path: reported, status }),
        ),
    ensures
        reported == path,
        status is Deleted <==> events.len() == 3 && events[2] is Removed,
        status is Deleted || status is Failed,
{
    phases_follow_answers(root, path, events);
    if events.len() > 0 {
        phases_follow_answers(root, path, events.drop_last());
    }
}

} // verus!
