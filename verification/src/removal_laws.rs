//! What a removal does: which steps it takes for which directory, and what it reports.

use crate::delete::{DeleteActionView, DeleteEventView, DeletionView};
use crate::entry::StatusView;
use crate::finding_laws::inside;
use crate::message::MessageView;
use crate::path::PathView;
use vstd::prelude::*;

verus! {

/// The report of a removal with a status.
pub open spec fn reports(path: PathView, status: StatusView) -> DeleteActionView {
    DeleteActionView::Report(MessageView::DeleteProgress { path, status })
}

/// A directory named `target` that lies below the root is removed, at whatever depth: first the
/// real path of the root is looked up, then that of the directory, then the directory is removed,
/// and at the end it is reported as gone.
pub proof fn targets_below_the_root_are_removed(
    root: PathView,
    project: PathView,
    real_root: PathView,
    below: PathView,
)
    ensures
        ({
            let path = inside(project, "target"@);
            let first = DeletionView::begun(root, path);
            let second = first.0.after_event(DeleteEventView::Resolved(real_root));
            let third = second.0.after_event(DeleteEventView::Resolved(real_root + below));
            let last = third.0.after_event(DeleteEventView::Removed);
            &&& first.1 == DeleteActionView::Resolve(root)
            &&& second.1 == DeleteActionView::Resolve(path)
            &&& third.1 == DeleteActionView::Remove(path)
            &&& last.1 == reports(path, StatusView::Deleted)
            &&& first.0.expects(DeleteEventView::Resolved(real_root))
            &&& second.0.expects(DeleteEventView::Resolved(real_root + below))
            &&& third.0.expects(DeleteEventView::Removed)
        }),
{
    let path = inside(project, "target"@);
    assert(path.last() == inside(project, "target"@).last());
    assert((real_root + below).subrange(0, real_root.len() as int) =~= real_root);
    assert(real_root.is_prefix_of(real_root + below));
}

/// A directory whose real path does not lie below the real path of the root is not removed, and
/// the report says why.
pub proof fn targets_outside_are_refused(
    root: PathView,
    project: PathView,
    real_root: PathView,
    real_path: PathView,
)
    requires
        forall|below: PathView| real_path != #[trigger] (real_root + below),
    ensures
        ({
            let path = inside(project, "target"@);
            let second = DeletionView::begun(root, path).0.after_event(
                DeleteEventView::Resolved(real_root),
            );
            second.0.after_event(DeleteEventView::Resolved(real_path)).1 == reports(
                path,
                StatusView::Failed("refusing to delete a target outside the scan root"@),
            )
        }),
{
    if real_root.is_prefix_of(real_path) {
        assert(real_path =~= real_root + real_path.skip(real_root.len() as int));
    }
}

/// A directory with another name is refused at once, and the report says why.
pub proof fn other_names_are_refused(root: PathView, path: PathView)
    requires
        forall|project: PathView| path != #[trigger] inside(project, "target"@),
    ensures
        DeletionView::begun(root, path).1 == reports(
            path,
            StatusView::Failed("refusing to delete a non-target directory"@),
        ),
        forall|event: DeleteEventView| !DeletionView::begun(root, path).0.expects(event),
{
    if path.len() > 0 {
        let project = path.drop_last();
        assert(path =~= project.push(path.last()));
        assert(path != inside(project, "target"@));
    }
}

/// Whichever step fails, the removal ends there, and the report gives the reason as it was given.
pub proof fn failures_are_reported_as_given(
    root: PathView,
    project: PathView,
    real_root: PathView,
    below: PathView,
    reason: Seq<char>,
)
    ensures
        ({
            let path = inside(project, "target"@);
            let failed = DeleteEventView::Failed(reason);
            let report = reports(path, StatusView::Failed(reason));
            let first = DeletionView::begun(root, path).0;
            let second = first.after_event(DeleteEventView::Resolved(real_root)).0;
            let third = second.after_event(DeleteEventView::Resolved(real_root + below)).0;
            &&& first.after_event(failed).1 == report
            &&& second.after_event(failed).1 == report
            &&& third.after_event(failed).1 == report
            &&& first.expects(failed)
            &&& second.expects(failed)
            &&& third.expects(failed)
            &&& forall|event: DeleteEventView| !first.after_event(failed).0.expects(event)
            &&& forall|event: DeleteEventView| !second.after_event(failed).0.expects(event)
            &&& forall|event: DeleteEventView| !third.after_event(failed).0.expects(event)
        }),
{
    targets_below_the_root_are_removed(root, project, real_root, below);
}

} // verus!
