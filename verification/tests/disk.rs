use std::collections::BTreeMap;

use purgee::app::App;
use purgee::delete::{DeleteAction, DeleteEvent, Deletion};
use purgee::entry::{DeleteStatus, TargetEntry};
use purgee::message::{Command, WorkerMessage};
use purgee::path::{Component, FileName, FilePath};
use purgee::scan::{
    measure_target, should_descend, Measurement, Scan, ScanAction, ScanEvent, WalkedFile,
};
use purgee::time::{TimeSpan, Timestamp};

fn path(text: &str) -> FilePath {
    FilePath {
        components: std::path::Path::new(text)
            .components()
            .map(|component| match component {
                std::path::Component::RootDir => Component::Root,
                std::path::Component::CurDir => Component::Current,
                std::path::Component::ParentDir => Component::Parent,
                std::path::Component::Normal(name) => {
                    Component::Normal(FileName::from_text(name.to_str().unwrap()))
                }
                std::path::Component::Prefix(_) => unreachable!(),
            })
            .collect(),
    }
}

#[derive(Clone, Copy)]
enum Node {
    Directory,
    File(u64),
    Link,
}

/// Directories and files in memory, by their paths.
struct Disk {
    nodes: BTreeMap<String, Node>,
    links: BTreeMap<String, String>,
    unreadable: Vec<String>,
}

const ROOT: &str = "/tmp/purgee-test-1-0";

impl Disk {
    fn new() -> Self {
        let mut disk = Disk {
            nodes: BTreeMap::new(),
            links: BTreeMap::new(),
            unreadable: Vec::new(),
        };
        disk.create_dir(ROOT);
        disk
    }

    fn create_dir(&mut self, text: &str) {
        let mut made = String::new();
        for part in text.split('/').filter(|part| !part.is_empty()) {
            made.push('/');
            made.push_str(part);
            self.nodes.entry(made.clone()).or_insert(Node::Directory);
        }
    }

    fn write(&mut self, text: &str, length: u64) {
        self.nodes.insert(text.to_string(), Node::File(length));
    }

    fn create_project(&mut self, project: &str, bytes: u64) {
        self.create_dir(&format!("{project}/target"));
        self.write(&format!("{project}/Cargo.toml"), 46);
        self.write(&format!("{project}/target/artifact.bin"), bytes);
    }

    fn holds(&self, text: &str) -> bool {
        self.nodes.contains_key(text)
    }

    fn remove_dir_all(&mut self, text: &str) -> Result<(), String> {
        if !self.holds(text) {
            return Err("No such file or directory (os error 2)".to_string());
        }
        let below = format!("{text}/");
        self.nodes
            .retain(|name, _| name != text && !name.starts_with(&below));
        Ok(())
    }

    fn canonicalize(&self, text: &str) -> Result<String, String> {
        if let Some(real) = self.links.get(text) {
            return Ok(real.clone());
        }
        if self.holds(text) {
            Ok(text.to_string())
        } else {
            Err("No such file or directory (os error 2)".to_string())
        }
    }

    fn below(&self, text: &str) -> Vec<(String, Node)> {
        let prefix = format!("{text}/");
        self.nodes
            .iter()
            .filter(|(name, _)| *name == text || name.starts_with(&prefix))
            .map(|(name, node)| (name.clone(), *node))
            .collect()
    }

    fn measure(&self, text: &str) -> Result<Measurement, String> {
        if self.unreadable.iter().any(|name| name == text) || !self.holds(text) {
            return Err("Permission denied (os error 13)".to_string());
        }
        Ok(Measurement {
            modified: Some(Timestamp { secs: 10, nanos: 0 }),
            files: self
                .below(text)
                .iter()
                .enumerate()
                .map(|(index, (_, node))| WalkedFile {
                    is_file: matches!(node, Node::File(_)),
                    len: match node {
                        Node::File(length) => *length,
                        _ => 4096,
                    },
                    modified: Some(Timestamp { secs: 20, nanos: index as u32 }),
                })
                .collect(),
        })
    }

    fn measure_project(&self, project: &str) -> TargetEntry {
        let target = format!("{project}/target");
        measure_target(
            &path(project),
            &path(&target),
            &path(ROOT),
            &self.measure(&target).unwrap(),
        )
    }

    /// Scans below the root. Returns all reports.
    fn scan(&self) -> Vec<WorkerMessage> {
        let root = path(ROOT);
        let mut scan = Scan::new(path(ROOT));
        let mut reports = Vec::new();
        let mut skipped: Option<String> = None;
        for (name, node) in self.below(ROOT) {
            if let Some(outer) = &skipped {
                if name.starts_with(outer) {
                    continue;
                }
            }
            skipped = None;
            let is_dir = matches!(node, Node::Directory);
            if !should_descend(&path(&name), &root, is_dir) {
                skipped = Some(format!("{name}/"));
                continue;
            }
            let mut event = ScanEvent::Found {
                path: path(&name),
                is_file: matches!(node, Node::File(_)),
            };
            loop {
                event = match scan.step(event) {
                    ScanAction::Walk => break,
                    ScanAction::Inspect(asked) => ScanEvent::Inspected {
                        is_directory: matches!(
                            self.nodes.get(&asked.to_text()),
                            Some(Node::Directory)
                        ),
                    },
                    ScanAction::Resolve(asked) => match self.canonicalize(&asked.to_text()) {
                        Ok(real) => ScanEvent::Resolved(path(&real)),
                        Err(reason) => ScanEvent::ResolveFailed(reason),
                    },
                    ScanAction::Measure(asked) => match self.measure(&asked.to_text()) {
                        Ok(measured) => {
                            assert!(scan.has_room_for(&measured));
                            ScanEvent::Measured(measured)
                        }
                        Err(reason) => ScanEvent::MeasureFailed(reason),
                    },
                    ScanAction::Report(message) => {
                        reports.push(message);
                        break;
                    }
                };
            }
        }
        reports.push(scan.finish(TimeSpan { secs: 0, nanos: 1 }));
        reports
    }

    fn scan_sync(&self) -> (Vec<TargetEntry>, Vec<String>) {
        match self.scan().pop() {
            Some(WorkerMessage::ScanComplete {
                entries, warnings, ..
            }) => (entries, warnings),
            _ => panic!("a scan ends with its report"),
        }
    }

    /// Removes a directory as far as it is allowed. Returns the report.
    fn delete(&mut self, root: FilePath, gone: FilePath) -> WorkerMessage {
        let (mut deletion, mut action) = Deletion::begin(root, gone);
        loop {
            let event = match action {
                DeleteAction::Resolve(asked) => match self.canonicalize(&asked.to_text()) {
                    Ok(real) => DeleteEvent::Resolved(path(&real)),
                    Err(reason) => DeleteEvent::Failed(reason),
                },
                DeleteAction::Remove(asked) => match self.remove_dir_all(&asked.to_text()) {
                    Ok(()) => DeleteEvent::Removed,
                    Err(reason) => DeleteEvent::Failed(reason),
                },
                DeleteAction::Report(message) => return message,
            };
            action = deletion.step(event);
        }
    }

    fn delete_current(&mut self, app: &mut App) {
        match app.start_delete_current() {
            Some(Command::Delete { root, path }) => {
                let report = self.delete(root, path);
                app.drain_worker_messages(vec![report]);
            }
            _ => panic!("a removal was to be started"),
        }
    }

    fn delete_status(&mut self, gone: &str) -> DeleteStatus {
        match self.delete(path(ROOT), path(gone)) {
            WorkerMessage::DeleteProgress { path: reported, status } => {
                assert!(reported.same(&path(gone)));
                status
            }
            _ => panic!("a removal ends with its report"),
        }
    }
}

fn in_root(text: &str) -> String {
    format!("{ROOT}/{text}")
}

#[test]
fn scan_finds_recursive_cargo_backed_targets_only() {
    let mut disk = Disk::new();
    disk.create_project(&in_root("alpha"), 1024);
    disk.create_project(&in_root("nested/beta"), 2048);
    disk.create_dir(&in_root("plain/target"));
    disk.write(&in_root("plain/target/orphan.bin"), 512);

    let (entries, _) = disk.scan_sync();

    assert_eq!(entries.len(), 2);
    assert!(entries.iter().any(|entry| entry.display_name == "alpha"));
    assert!(entries.iter().any(|entry| entry.display_name == "beta"));
    assert!(entries
        .iter()
        .all(|entry| entry.relative_path.contains("target")));
}

#[test]
fn measure_target_sums_files_and_uses_latest_mtime() {
    let mut disk = Disk::new();
    let project = in_root("alpha");
    disk.create_project(&project, 1024);
    disk.write(&format!("{project}/target/second.bin"), 2048);

    let entry = disk.measure_project(&project);

    assert_eq!(entry.size_bytes, 3072);
    assert_eq!(entry.display_name, "alpha");
    assert_eq!(entry.relative_path, "./alpha/target");
    assert_eq!(entry.modified_at, Timestamp { secs: 20, nanos: 2 });
}

#[test]
fn deleting_focused_target_removes_only_that_directory_without_rescanning() {
    let mut disk = Disk::new();
    let project = in_root("alpha");
    disk.create_project(&project, 1024);
    let untouched = in_root("beta");
    disk.create_project(&untouched, 512);
    let entries = vec![
        disk.measure_project(&project),
        disk.measure_project(&untouched),
    ];

    let mut app = App::new(path(ROOT));
    app.entries = entries;
    app.scan_summary.discovered = app.entries.len();
    app.scan_summary.total_bytes = app.cached_total_bytes();
    app.recompute_view();
    let other = app.entries[1].target_path.clone();
    app.selected.insert(other);
    disk.delete_current(&mut app);

    assert!(!disk.holds(&format!("{project}/target")));
    assert!(disk.holds(&format!("{untouched}/target")));
    assert_eq!(app.entries.len(), 2);
    assert!(matches!(
        app.entries[0].delete_status,
        DeleteStatus::Deleted
    ));
    assert!(matches!(app.entries[1].delete_status, DeleteStatus::Ready));
    assert!(app.selected.contains(&app.entries[1].target_path));
    assert_eq!(app.scan_summary.discovered, 2);
    assert_eq!(app.scan_summary.total_bytes, 512);
    assert_eq!(app.selected_total_bytes(), 512);
}

#[test]
fn failed_delete_stays_cached_and_can_be_retried() {
    let mut disk = Disk::new();
    let project = in_root("alpha");
    disk.create_project(&project, 512);
    let entry = disk.measure_project(&project);
    disk.remove_dir_all(&format!("{project}/target")).unwrap();

    let mut app = App::new(path(ROOT));
    app.entries = vec![entry];
    app.scan_summary.discovered = 1;
    app.scan_summary.total_bytes = app.cached_total_bytes();
    app.recompute_view();
    disk.delete_current(&mut app);
    assert!(matches!(
        app.entries[0].delete_status,
        DeleteStatus::Failed(_)
    ));
    assert_eq!(app.scan_summary.total_bytes, 512);

    disk.create_project(&project, 512);
    disk.delete_current(&mut app);
    assert!(matches!(
        app.entries[0].delete_status,
        DeleteStatus::Deleted
    ));
    assert_eq!(app.scan_summary.total_bytes, 0);
}

#[test]
fn scan_reports_each_directory() {
    let mut disk = Disk::new();
    disk.create_project(&in_root("alpha"), 1000);
    disk.create_project(&in_root("beta"), 24);
    let reports = disk.scan();
    assert_eq!(reports.len(), 3);
    match &reports[1] {
        WorkerMessage::ScanProgress {
            discovered,
            total_bytes,
            current_path,
        } => {
            assert_eq!(*discovered, 2);
            assert_eq!(*total_bytes, 1024);
            assert!(current_path.same(&path(&in_root("beta/target"))));
        }
        _ => panic!("the second directory was to be reported"),
    }
}

#[test]
fn scan_measures_a_directory_once() {
    let mut disk = Disk::new();
    disk.create_project(&in_root("alpha"), 1000);
    disk.create_project(&in_root("beta"), 24);
    disk.links
        .insert(in_root("beta/target"), in_root("alpha/target"));
    let (entries, warnings) = disk.scan_sync();
    assert_eq!(entries.len(), 1);
    assert_eq!(entries[0].display_name, "alpha");
    assert!(warnings.is_empty());
}

#[test]
fn scan_keeps_out_of_targets_and_links() {
    let mut disk = Disk::new();
    disk.create_project(&in_root("alpha"), 1000);
    disk.create_project(&in_root("alpha/target/package/inner"), 5);
    disk.create_project(&in_root(".git/hidden"), 5);
    disk.write(&in_root("linked/Cargo.toml"), 1);
    disk.nodes.insert(in_root("linked/target"), Node::Link);
    disk.create_dir(&in_root("folder/Cargo.toml"));
    disk.create_dir(&in_root("folder/target"));
    let (entries, _) = disk.scan_sync();
    assert_eq!(entries.len(), 1);
    assert_eq!(entries[0].size_bytes, 1000 + 46 + 5);
}

#[test]
fn scan_collects_warnings() {
    let mut disk = Disk::new();
    disk.create_project(&in_root("alpha"), 1000);
    disk.unreadable.push(in_root("alpha/target"));
    let (entries, warnings) = disk.scan_sync();
    assert!(entries.is_empty());
    assert_eq!(
        warnings,
        vec![format!(
            "{ROOT}/alpha/target: Permission denied (os error 13)"
        )]
    );

    let mut scan = Scan::new(path(ROOT));
    let action = scan.step(ScanEvent::WalkFailed("loop".to_string()));
    assert!(matches!(action, ScanAction::Walk));
    scan.step(ScanEvent::Found {
        path: path("/a/Cargo.toml"),
        is_file: true,
    });
    scan.step(ScanEvent::Inspected { is_directory: true });
    scan.step(ScanEvent::ResolveFailed("gone".to_string()));
    assert_eq!(
        scan.warnings,
        vec!["loop".to_string(), "/a/target: gone".to_string()]
    );
}

#[test]
fn totals_beyond_the_limit_are_seen() {
    let mut scan = Scan::new(path(ROOT));
    let file = |len: u64| WalkedFile {
        is_file: true,
        len,
        modified: None,
    };
    let measured = |files: Vec<WalkedFile>| Measurement {
        modified: None,
        files,
    };
    assert!(scan.has_room_for(&measured(vec![file(u64::MAX)])));
    assert!(!scan.has_room_for(&measured(vec![file(u64::MAX), file(1)])));
    scan.step(ScanEvent::Found {
        path: path("/a/Cargo.toml"),
        is_file: true,
    });
    scan.step(ScanEvent::Inspected { is_directory: true });
    scan.step(ScanEvent::Resolved(path("/a/target")));
    scan.step(ScanEvent::Measured(measured(vec![file(1)])));
    assert_eq!(scan.total_bytes, 1);
    assert_eq!(scan.entries[0].modified_at, Timestamp { secs: 0, nanos: 0 });
    assert!(scan.has_room_for(&measured(vec![file(u64::MAX - 1)])));
    assert!(!scan.has_room_for(&measured(vec![file(u64::MAX)])));
}

#[test]
fn other_directories_are_never_removed() {
    let mut disk = Disk::new();
    disk.create_project(&in_root("alpha"), 1000);
    let reason = |status: DeleteStatus| match status {
        DeleteStatus::Failed(reason) => reason,
        _ => panic!("the removal was to fail"),
    };
    assert_eq!(
        reason(disk.delete_status(&in_root("alpha"))),
        "refusing to delete a non-target directory"
    );
    disk.create_dir("/elsewhere/target");
    assert_eq!(
        reason(disk.delete_status("/elsewhere/target")),
        "refusing to delete a target outside the scan root"
    );
    disk.links
        .insert(in_root("alpha/target"), "/elsewhere/target".to_string());
    assert_eq!(
        reason(disk.delete_status(&in_root("alpha/target"))),
        "refusing to delete a target outside the scan root"
    );
    assert_eq!(
        reason(disk.delete_status(&in_root("beta/target"))),
        "No such file or directory (os error 2)"
    );
    assert!(disk.holds("/elsewhere/target"));
    assert!(disk.holds(&in_root("alpha/target")));
    disk.links.clear();
    assert!(matches!(
        disk.delete_status(&in_root("alpha/target")),
        DeleteStatus::Deleted
    ));
    assert!(!disk.holds(&in_root("alpha/target")));
    assert!(disk.holds(&in_root("alpha/Cargo.toml")));
}

#[test]
fn roots_are_always_entered() {
    assert!(should_descend(&path("/a/target"), &path("/a/target"), true));
    assert!(!should_descend(&path("/a/target"), &path("/a"), true));
    assert!(!should_descend(&path("/a/.git"), &path("/a"), true));
    assert!(should_descend(&path("/a/target"), &path("/a"), false));
    assert!(should_descend(&path("/a/src"), &path("/a"), true));
}

#[test]
fn projects_without_a_name_are_shown_as_a_dot() {
    let measured = Measurement {
        modified: None,
        files: Vec::new(),
    };
    let entry = measure_target(&path("/"), &path("/target"), &path("/"), &measured);
    assert_eq!(entry.display_name, ".");
    assert_eq!(entry.relative_path, "./target");
    let odd = FilePath {
        components: vec![
            Component::Root,
            Component::Normal(FileName {
                shown: "caf\u{fffd}".to_string(),
                raw: Some(vec![99, 97, 102, 233]),
            }),
        ],
    };
    let entry = measure_target(&odd, &odd.child("target"), &path("/x"), &measured);
    assert_eq!(entry.display_name, ".");
    assert_eq!(entry.relative_path, "/caf\u{fffd}/target");
}
