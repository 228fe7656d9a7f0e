//! What is said between the list of entries and the work on the file system.

use crate::entry::{entry_views, DeleteStatus, EntryView, StatusView, TargetEntry};
use crate::path::{FilePath, PathView};
use crate::time::TimeSpan;
use crate::totals::{original_total, size_total};
use vstd::prelude::*;

verus! {

/// A report of the work on the file system.
pub enum WorkerMessage {
    /// A scan has found one more directory.
    ScanProgress { discovered: usize, total_bytes: u64, current_path: FilePath },
    /// A scan has come to its end.
    ScanComplete { entries: Vec<TargetEntry>, warnings: Vec<String>, elapsed: TimeSpan },
    /// The removal of a directory has come to its end.
    DeleteProgress { path: FilePath, status: DeleteStatus },
}

/// What a report holds.
#[verifier::ext_equal]
pub enum MessageView {
    ScanProgress { discovered: usize, total_bytes: u64, current_path: PathView },
    ScanComplete { entries: Seq<EntryView>, warnings: Seq<Seq<char>>, elapsed: TimeSpan },
    DeleteProgress { path: PathView, status: StatusView },
}

/// What the texts of a list hold.
pub open spec fn text_views(texts: Seq<String>) -> Seq<Seq<char>> {
    texts.map_values(|text: String| text@)
}

impl View for WorkerMessage {
    type V = MessageView;

    open spec fn view(&self) -> MessageView {
        match self {
            WorkerMessage::ScanProgress { discovered, total_bytes, current_path } => {
                MessageView::ScanProgress {
                    discovered: *discovered,
                    total_bytes: *total_bytes,
                    current_path: current_path@,
                }
            },
            WorkerMessage::ScanComplete { entries, warnings, elapsed } => {
                MessageView::ScanComplete {
                    entries: entry_views(entries@),
                    warnings: text_views(warnings@),
                    elapsed: *elapsed,
                }
            },
            WorkerMessage::DeleteProgress { path, status } => {
                MessageView::DeleteProgress { path: path@, status: status@ }
            },
        }
    }
}

impl MessageView {
    /// The sizes in the report can be added up.
    pub open spec fn fits(self) -> bool {
        match self {
            MessageView::ScanComplete { entries, .. } => {
                &&& size_total(entries) <= u64::MAX
                &&& original_total(entries) <= u64::MAX
            },
            _ => true,
        }
    }
}

/// What the reports of a list hold.
pub open spec fn message_views(messages: Seq<WorkerMessage>) -> Seq<MessageView> {
    messages.map_values(|message: WorkerMessage| message@)
}

/// Work on the file system that is to be started.
pub enum Command {
    /// Look for directories below the root.
    Scan { root: FilePath },
    /// Remove a directory that lies below the root.
    Delete { root: FilePath, path: FilePath },
}

/// What a command holds.
#[verifier::ext_equal]
pub enum CommandView {
    Scan { root: PathView },
    Delete { root: PathView, path: PathView },
}

impl View for Command {
    type V = CommandView;

    open spec fn view(&self) -> CommandView {
        match self {
            Command::Scan { root } => CommandView::Scan { root: root@ },
            Command::Delete { root, path } => CommandView::Delete { root: root@, path: path@ },
        }
    }
}

/// What a command holds, where there is one.
pub open spec fn command_view(command: Option<Command>) -> Option<CommandView> {
    match command {
        Some(command) => Some(command@),
        None => None,
    }
}

} // verus!
