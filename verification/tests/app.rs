use purgee::app::App;
use purgee::entry::{DeleteStatus, SortField, SortOrder, TargetEntry};
use purgee::key::{KeyCode, KeyEvent};
use purgee::message::{Command, WorkerMessage};
use purgee::model::AppMode;
use purgee::path::{Component, FileName, FilePath};
use purgee::time::{TimeSpan, Timestamp};

fn path(text: &str) -> FilePath {
    FilePath {
        components: std::path::Path::new(text)
            .components()
            .map(|component| match component {
                std::path::Component::RootDir => Component::Root,
                std::path::Component::CurDir => Component::Current,
                std::path::Component::ParentDir => Component::Parent,
                std::path::Component::Normal(name) => {
                    Component::Normal(FileName::from_text(name.to_str().unwrap()))
                }
                std::path::Component::Prefix(_) => unreachable!(),
            })
            .collect(),
    }
}

fn fake_entry(name: &str, size_bytes: u64) -> TargetEntry {
    TargetEntry {
        project_root: path(&format!("/tmp/{name}")),
        target_path: path(&format!("/tmp/{name}/target")),
        display_name: name.to_string(),
        relative_path: format!("./{name}/target"),
        size_bytes,
        original_size_bytes: size_bytes,
        modified_at: Timestamp::epoch(),
        delete_status: DeleteStatus::Ready,
    }
}

fn app_with(entries: Vec<TargetEntry>) -> App {
    let mut app = App::new(path("/tmp"));
    app.handle_worker_message(WorkerMessage::ScanComplete {
        entries,
        warnings: Vec::new(),
        elapsed: TimeSpan { secs: 1, nanos: 0 },
    });
    app
}

fn key(code: KeyCode) -> KeyEvent {
    KeyEvent {
        code,
        control: false,
        alt: false,
    }
}

fn press(app: &mut App, character: char) -> Option<Command> {
    app.handle_key(key(KeyCode::Char(character)))
}

fn names(app: &App) -> Vec<&str> {
    app.filtered_indices
        .iter()
        .map(|index| app.entries[*index].display_name.as_str())
        .collect()
}

fn finish_delete(app: &mut App, name: &str, status: DeleteStatus) {
    app.drain_worker_messages(vec![WorkerMessage::DeleteProgress {
        path: path(&format!("/tmp/{name}/target")),
        status,
    }]);
}

#[test]
fn filtering_and_selection_stay_scoped_to_visible_rows() {
    let mut app = App::new(path("/tmp/purgee-test-1-0"));
    app.entries = vec![
        fake_entry("alpha", 10),
        fake_entry("beta", 20),
        fake_entry("gamma", 30),
    ];
    app.recompute_view();
    app.search_query = "a".to_string();
    app.recompute_view();

    app.toggle_all_filtered();
    assert_eq!(app.selected.len(), 3);

    app.search_query = "beta".to_string();
    app.recompute_view();
    app.invert_filtered_selection();
    assert!(!app.selected.contains(&path("/tmp/beta/target")));
    assert!(app.selected.contains(&path("/tmp/alpha/target")));
}

#[test]
fn a_new_program_scans() {
    let mut app = App::new(path("/work"));
    assert_eq!(app.mode, AppMode::Scanning);
    assert_eq!(app.sort_field, SortField::Size);
    assert_eq!(app.sort_order, SortOrder::Desc);
    assert!(app.entries.is_empty());
    assert!(app.current_entry().is_none());
    assert!(!app.should_quit);
    match app.start_scan() {
        Command::Scan { root } => assert!(root.same(&path("/work"))),
        Command::Delete { .. } => panic!("nothing is to be removed"),
    }
}

#[test]
fn scan_reports_fill_the_list() {
    let mut app = App::new(path("/tmp"));
    app.handle_worker_message(WorkerMessage::ScanProgress {
        discovered: 2,
        total_bytes: 30,
        current_path: path("/tmp/beta/target"),
    });
    assert_eq!(app.scan_summary.discovered, 2);
    assert_eq!(app.scan_summary.total_bytes, 30);
    assert!(app.scan_summary.current_path.is_some());
    assert_eq!(app.mode, AppMode::Scanning);

    app.handle_worker_message(WorkerMessage::ScanComplete {
        entries: vec![fake_entry("alpha", 10), fake_entry("beta", 20)],
        warnings: vec!["broken".to_string()],
        elapsed: TimeSpan { secs: 2, nanos: 5 },
    });
    assert_eq!(app.mode, AppMode::Browsing);
    assert_eq!(app.scan_summary.discovered, 2);
    assert_eq!(app.scan_summary.total_bytes, 30);
    assert!(app.scan_summary.current_path.is_none());
    assert_eq!(app.scan_summary.elapsed, TimeSpan { secs: 2, nanos: 5 });
    assert_eq!(app.scan_warnings, vec!["broken".to_string()]);
    assert_eq!(names(&app), vec!["beta", "alpha"]);
    assert_eq!(app.table_state.selected, Some(0));
}

#[test]
fn rescan_keeps_only_known_selection() {
    let mut app = app_with(vec![fake_entry("alpha", 10), fake_entry("beta", 20)]);
    press(&mut app, 'a');
    assert_eq!(app.selected.len(), 2);
    assert!(matches!(press(&mut app, 'r'), Some(Command::Scan { .. })));
    assert_eq!(app.mode, AppMode::Scanning);
    assert!(app.entries.is_empty());
    assert_eq!(app.selected.len(), 2);
    app.handle_worker_message(WorkerMessage::ScanComplete {
        entries: vec![fake_entry("beta", 20), fake_entry("gamma", 5)],
        warnings: Vec::new(),
        elapsed: TimeSpan { secs: 0, nanos: 1 },
    });
    assert_eq!(app.selected.len(), 1);
    assert!(app.selected.contains(&path("/tmp/beta/target")));
}

#[test]
fn cursor_stays_on_the_rows() {
    let mut app = app_with(vec![
        fake_entry("alpha", 10),
        fake_entry("beta", 20),
        fake_entry("gamma", 30),
    ]);
    press(&mut app, 'k');
    assert_eq!(app.cursor, 0);
    press(&mut app, 'j');
    app.handle_key(key(KeyCode::Down));
    assert_eq!(app.cursor, 2);
    press(&mut app, 'j');
    assert_eq!(app.cursor, 2);
    app.handle_key(key(KeyCode::Up));
    assert_eq!(app.cursor, 1);
    press(&mut app, 'g');
    assert_eq!(app.cursor, 0);
    press(&mut app, 'G');
    assert_eq!(app.cursor, 2);
    assert_eq!(app.table_state.selected, Some(2));
    app.move_cursor(isize::MIN);
    assert_eq!(app.cursor, 0);
    app.move_cursor(isize::MAX);
    assert_eq!(app.cursor, 2);

    let mut empty = app_with(Vec::new());
    press(&mut empty, 'j');
    press(&mut empty, 'G');
    assert_eq!(empty.cursor, 0);
    assert_eq!(empty.table_state.selected, None);
}

#[test]
fn search_follows_typing() {
    let mut app = app_with(vec![fake_entry("alpha", 10), fake_entry("beta", 20)]);
    press(&mut app, '/');
    assert_eq!(app.mode, AppMode::Searching);
    press(&mut app, 'A');
    press(&mut app, 'L');
    assert_eq!(app.search_query, "AL");
    assert_eq!(names(&app), vec!["alpha"]);
    app.handle_key(KeyEvent {
        code: KeyCode::Char('x'),
        control: true,
        alt: false,
    });
    app.handle_key(KeyEvent {
        code: KeyCode::Char('x'),
        control: false,
        alt: true,
    });
    assert_eq!(app.search_query, "AL");
    press(&mut app, 'x');
    assert!(names(&app).is_empty());
    app.handle_key(key(KeyCode::Backspace));
    assert_eq!(names(&app), vec!["alpha"]);
    app.handle_key(key(KeyCode::Backspace));
    app.handle_key(key(KeyCode::Backspace));
    app.handle_key(key(KeyCode::Backspace));
    assert_eq!(app.search_query, "");
    assert_eq!(names(&app), vec!["beta", "alpha"]);
    app.handle_key(key(KeyCode::Enter));
    assert_eq!(app.mode, AppMode::Browsing);
}

#[test]
fn sort_menu_picks_fields() {
    let mut app = app_with(vec![
        fake_entry("beta", 20),
        fake_entry("alpha", 20),
        fake_entry("gamma", 5),
    ]);
    assert_eq!(names(&app), vec!["beta", "alpha", "gamma"]);
    press(&mut app, 's');
    assert_eq!(app.mode, AppMode::SortMenu { index: 0 });
    app.handle_key(key(KeyCode::Up));
    assert_eq!(app.mode, AppMode::SortMenu { index: 3 });
    app.handle_key(key(KeyCode::Down));
    press(&mut app, 'j');
    assert_eq!(app.mode, AppMode::SortMenu { index: 1 });
    app.handle_key(key(KeyCode::Enter));
    assert_eq!(app.mode, AppMode::Browsing);
    assert_eq!(app.sort_field, SortField::Name);
    assert_eq!(app.sort_order, SortOrder::Asc);
    assert_eq!(names(&app), vec!["alpha", "beta", "gamma"]);
    press(&mut app, 's');
    press(&mut app, 's');
    assert_eq!(app.sort_order, SortOrder::Desc);
    assert_eq!(names(&app), vec!["gamma", "beta", "alpha"]);
    app.handle_key(key(KeyCode::Enter));
    assert_eq!(app.sort_order, SortOrder::Asc);
    press(&mut app, 's');
    app.handle_key(key(KeyCode::Esc));
    assert_eq!(app.mode, AppMode::Browsing);
}

#[test]
fn sorting_keeps_equal_entries_in_order() {
    let mut first = fake_entry("same", 7);
    first.relative_path = "./one/target".to_string();
    first.target_path = path("/tmp/one/target");
    let mut second = fake_entry("same", 7);
    second.relative_path = "./two/target".to_string();
    second.target_path = path("/tmp/two/target");
    let mut app = app_with(vec![second, first]);
    assert_eq!(app.entries[0].relative_path, "./two/target");
    app.recompute_view();
    assert_eq!(app.entries[0].relative_path, "./two/target");
    app.apply_sort_field(SortField::Path);
    assert_eq!(app.entries[0].relative_path, "./one/target");
}

#[test]
fn latest_changes_come_first() {
    let mut first = fake_entry("alpha", 7);
    first.modified_at = Timestamp { secs: -5, nanos: 0 };
    let mut second = fake_entry("beta", 7);
    second.modified_at = Timestamp { secs: 9, nanos: 1 };
    let mut app = app_with(vec![first, second, fake_entry("gamma", 7)]);
    app.apply_sort_field(SortField::Modified);
    assert_eq!(names(&app), vec!["beta", "gamma", "alpha"]);
}

#[test]
fn selection_toggles_and_inverts() {
    let mut app = app_with(vec![fake_entry("alpha", 10), fake_entry("beta", 20)]);
    press(&mut app, ' ');
    assert!(app.selected.contains(&path("/tmp/beta/target")));
    assert_eq!(app.selected_total_bytes(), 20);
    press(&mut app, 'i');
    assert!(!app.selected.contains(&path("/tmp/beta/target")));
    assert!(app.selected.contains(&path("/tmp/alpha/target")));
    press(&mut app, 'i');
    assert_eq!(app.selected.len(), 1);
    press(&mut app, 'a');
    assert_eq!(app.selected.len(), 2);
    press(&mut app, 'a');
    assert_eq!(app.selected.len(), 0);
    press(&mut app, ' ');
    press(&mut app, ' ');
    assert_eq!(app.selected.len(), 0);
    assert!(app.selected_entries().is_empty());
}

#[test]
fn removal_is_started_once_and_reported() {
    let mut app = app_with(vec![fake_entry("alpha", 10), fake_entry("beta", 20)]);
    press(&mut app, ' ');
    assert!(!app.needs_animation());
    assert_eq!(app.poll_timeout_millis(), 250);
    match press(&mut app, 'd') {
        Some(Command::Delete { root, path: gone }) => {
            assert!(root.same(&path("/tmp")));
            assert!(gone.same(&path("/tmp/beta/target")));
        }
        _ => panic!("a removal was to be started"),
    }
    assert!(app.needs_animation());
    assert_eq!(app.poll_timeout_millis(), 100);
    assert_eq!(app.deleting_count(), 1);
    assert!(press(&mut app, 'd').is_none());
    press(&mut app, ' ');
    assert!(app.selected.contains(&path("/tmp/beta/target")));
    assert!(app.selected_entries().is_empty());
    assert_eq!(app.cleaned_session_summary(), None);

    finish_delete(&mut app, "beta", DeleteStatus::Deleted);
    assert_eq!(app.entries.len(), 2);
    assert_eq!(app.entries[0].size_bytes, 0);
    assert_eq!(app.entries[0].original_size_bytes, 20);
    assert_eq!(app.scan_summary.total_bytes, 10);
    assert_eq!(app.remaining_target_count(), 1);
    assert_eq!(app.cleaned_session_summary(), Some((1, 20)));
    assert!(!app.selected.contains(&path("/tmp/beta/target")));
    assert!(press(&mut app, 'd').is_none());

    finish_delete(&mut app, "unknown", DeleteStatus::Deleted);
    assert_eq!(app.remaining_target_count(), 1);
}

#[test]
fn spinner_moves_every_tenth_of_a_second() {
    let mut app = App::new(path("/tmp"));
    let short = TimeSpan { secs: 0, nanos: 99_999_999 };
    let long = TimeSpan { secs: 0, nanos: 100_000_000 };
    assert!(!app.advance_animation(short));
    assert_eq!(app.animation_tick, 0);
    for _ in 0..9 {
        assert!(app.advance_animation(long));
    }
    assert_eq!(app.animation_tick, 9);
    assert!(app.advance_animation(TimeSpan { secs: 1, nanos: 0 }));
    assert_eq!(app.animation_tick, 0);
    let mut idle = app_with(Vec::new());
    assert!(!idle.advance_animation(long));
}

#[test]
fn keys_end_the_program() {
    let quit = KeyEvent {
        code: KeyCode::Char('c'),
        control: true,
        alt: false,
    };
    for mode in [
        AppMode::Scanning,
        AppMode::Browsing,
        AppMode::Searching,
        AppMode::SortMenu { index: 2 },
        AppMode::Help,
    ] {
        let mut app = app_with(Vec::new());
        app.mode = mode;
        app.handle_key(quit);
        assert!(app.should_quit);
    }
    let mut scanning = App::new(path("/tmp"));
    press(&mut scanning, 'x');
    assert!(!scanning.should_quit);
    press(&mut scanning, 'q');
    assert!(scanning.should_quit);
    let mut helping = app_with(Vec::new());
    press(&mut helping, '?');
    assert_eq!(helping.mode, AppMode::Help);
    press(&mut helping, 'q');
    assert!(!helping.should_quit);
    press(&mut helping, '?');
    assert_eq!(helping.mode, AppMode::Browsing);
    press(&mut helping, 'q');
    assert!(helping.should_quit);
}
