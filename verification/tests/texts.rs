use purgee::arguments::parse_root_argument;
use purgee::duration::format_duration;
use purgee::entry::{DeleteStatus, TargetEntry};
use purgee::path::{display_relative_path, Component, FileName, FilePath};
use purgee::path_set::PathSet;
use purgee::pieces::{
    compact_relative_path, footer_spans, highlight_text, spinner, status_span,
};
use purgee::style::{Color, Line, Span, Style};
use purgee::time::{relative_time, TimeSpan, Timestamp};

fn path(text: &str) -> FilePath {
    FilePath {
        components: std::path::Path::new(text)
            .components()
            .map(|component| match component {
                std::path::Component::RootDir => Component::Root,
                std::path::Component::CurDir => Component::Current,
                std::path::Component::ParentDir => Component::Parent,
                std::path::Component::Normal(name) => {
                    Component::Normal(FileName::from_text(name.to_str().unwrap()))
                }
                std::path::Component::Prefix(_) => unreachable!(),
            })
            .collect(),
    }
}

fn pieces(line: Line) -> Vec<(String, Style)> {
    match line {
        Line::Plain(text) => vec![(text, Style::plain())],
        Line::Spans(spans) => spans
            .into_iter()
            .map(|span| (span.text, span.style))
            .collect(),
    }
}

#[test]
fn arguments_name_the_root() {
    assert_eq!(parse_root_argument(Vec::new(), "."), Ok("."));
    assert_eq!(parse_root_argument(vec!["src"], "."), Ok("src"));
    assert_eq!(
        parse_root_argument(vec!["a", "b"], "."),
        Err("usage: purgee [PATH]")
    );
}

#[test]
fn durations_are_written_as_floating_point_writes_them() {
    let mut samples: Vec<(u64, u32)> = vec![(0, 0), (0, 1), (1, 0), (u64::MAX, 999_999_999)];
    for nanos in (0..1000).map(|step| step * 1_000_000) {
        samples.push((0, nanos));
        samples.push((1, nanos));
        samples.push((7, nanos + 1));
        samples.push((59, nanos.saturating_sub(1)));
        samples.push((123_456_789, nanos));
        samples.push((1 << 46, nanos));
        samples.push(((1 << 50) - 1, nanos));
        samples.push(((1 << 52) + 1, nanos));
        samples.push(((1 << 53) + 1, nanos));
    }
    for shift in 0..64 {
        for delta in 0..4u64 {
            for nanos in [0, 49_999_999, 50_000_000, 149_999_999, 250_000_000, 950_000_000] {
                samples.push(((1u64 << shift).wrapping_sub(delta), nanos));
                samples.push(((1u64 << shift).wrapping_add(delta), nanos));
            }
        }
    }
    for (secs, nanos) in samples {
        let exact = std::time::Duration::new(secs, nanos);
        let expected = if exact.is_zero() {
            "0.0s".to_string()
        } else {
            format!("{:.1}s", exact.as_secs_f64())
        };
        assert_eq!(format_duration(TimeSpan { secs, nanos }), expected);
    }
    assert_eq!(
        format_duration(TimeSpan { secs: 12, nanos: 340_000_000 }),
        "12.3s"
    );
}

#[test]
fn ages_are_told_in_days_weeks_and_months() {
    let now = Timestamp { secs: 0, nanos: 5 };
    let cases = [
        (0, "today"),
        (1, "yesterday"),
        (2, "2 days ago"),
        (6, "6 days ago"),
        (7, "1 week ago"),
        (13, "1 week ago"),
        (14, "2 weeks ago"),
        (29, "4 weeks ago"),
        (30, "1 month ago"),
        (59, "1 month ago"),
        (60, "2 months ago"),
        (3650, "121 months ago"),
    ];
    for (days, expected) in cases {
        let time = Timestamp {
            secs: -86_400 * days,
            nanos: 5,
        };
        assert_eq!(relative_time(now, time), expected);
    }
    let almost = Timestamp {
        secs: -86_400,
        nanos: 6,
    };
    assert_eq!(relative_time(now, almost), "today");
    let future = Timestamp { secs: 99, nanos: 0 };
    assert_eq!(relative_time(now, future), "today");
    assert!(almost.is_before(&now));
    let oldest = Timestamp {
        secs: i64::MIN,
        nanos: 0,
    };
    let newest = Timestamp {
        secs: i64::MAX,
        nanos: 0,
    };
    assert_eq!(relative_time(newest, oldest), "7116799411153 months ago");
}

#[test]
fn long_paths_are_cut_down() {
    assert_eq!(compact_relative_path("./alpha/target"), "./alpha/target");
    assert_eq!(
        compact_relative_path("./abcdefghijklmnopqrs/target"),
        "./abcdefghijklmnopqrs/target"
    );
    assert_eq!(
        compact_relative_path("./abcdefghijklmnopqrst/target"),
        "…/abcdefghijklmnopqrst/target"
    );
    assert_eq!(
        compact_relative_path("./workspace/crates/group/member/target"),
        "…/group/member/target"
    );
    assert_eq!(
        compact_relative_path("././very/long/path/to/a/target/target"),
        "…/to/a/target"
    );
    assert_eq!(
        compact_relative_path("/outside/of/the/root/of/the/scan/"),
        "…/scan//target"
    );
}

#[test]
fn found_text_is_marked() {
    let mark = Style::bold(Color::AccentPrimary);
    let none = Style::plain();
    assert_eq!(
        pieces(highlight_text("alpha", "")),
        vec![("alpha".to_string(), none)]
    );
    assert_eq!(
        pieces(highlight_text("alpha", "x")),
        vec![("alpha".to_string(), none)]
    );
    assert_eq!(
        pieces(highlight_text("grüße Alpha alpha", "aLP")),
        vec![
            ("grüße ".to_string(), none),
            ("Alp".to_string(), mark),
            ("ha alpha".to_string(), none),
        ]
    );
    assert!(matches!(highlight_text("a", "b"), Line::Plain(_)));
    assert!(matches!(highlight_text("a", "A"), Line::Spans(_)));
}

#[test]
fn spinner_goes_round() {
    assert_eq!(spinner(0), "⠋");
    assert_eq!(spinner(3), "⠸");
    assert_eq!(spinner(9), "⠏");
    assert_eq!(spinner(10), "⠋");
    assert_eq!(spinner(25), "⠴");
}

fn sign(status: DeleteStatus, selected: bool) -> Span {
    let entry = TargetEntry {
        project_root: path("/a"),
        target_path: path("/a/target"),
        display_name: "a".to_string(),
        relative_path: "./a/target".to_string(),
        size_bytes: 1,
        original_size_bytes: 1,
        modified_at: Timestamp::epoch(),
        delete_status: status,
    };
    status_span(&entry, selected, 1)
}

#[test]
fn signs_tell_the_status() {
    let shown = |span: Span| (span.text, span.style);
    assert_eq!(
        shown(sign(DeleteStatus::Ready, true)),
        ("✓".to_string(), Style::bold(Color::AccentSuccess))
    );
    assert_eq!(
        shown(sign(DeleteStatus::Ready, false)),
        (" ".to_string(), Style::plain())
    );
    assert_eq!(
        shown(sign(DeleteStatus::Deleting, true)),
        ("⠙".to_string(), Style::bold(Color::AccentPrimary))
    );
    assert_eq!(
        shown(sign(DeleteStatus::Deleted, false)),
        ("✓".to_string(), Style::bold(Color::TextMuted))
    );
    assert_eq!(
        shown(sign(DeleteStatus::Failed("no".to_string()), false)),
        ("!".to_string(), Style::bold(Color::AccentError))
    );
}

#[test]
fn hints_stand_side_by_side() {
    let spans = footer_spans(&vec![("esc", "cancel"), ("enter", "apply")]);
    let text: String = spans.iter().map(|span| span.text.as_str()).collect();
    assert_eq!(text, "esc cancel  enter apply");
    assert_eq!(spans.len(), 7);
    assert_eq!(spans[0].style, Style::bold(Color::AccentPrimary));
    assert_eq!(spans[2].style, Style::fg(Color::TextMuted));
}

#[test]
fn colors_have_their_parts() {
    assert_eq!(Color::Background.rgb(), (22, 22, 30));
    assert_eq!(Color::AccentWarning.rgb(), (255, 183, 77));
    assert_eq!(Color::ActiveRow.rgb(), (39, 54, 79));
}

#[test]
fn paths_are_shown_below_the_root() {
    let root = path("/home/user");
    assert_eq!(
        display_relative_path(&root, &path("/home/user/a/target")),
        "./a/target"
    );
    assert_eq!(
        display_relative_path(&root, &path("/home/username/a")),
        "/home/username/a"
    );
    assert_eq!(display_relative_path(&root, &root), "./");
    assert_eq!(path("./a/../b").to_text(), "./a/../b");
    assert_eq!(path("/").to_text(), "/");
    assert!(path("/").parent().is_none());
    assert!(path("/a/b").parent().unwrap().same(&path("/a")));
    assert!(path("a/..").file_name().is_none());
}

#[test]
fn sets_of_paths_hold_each_path_once() {
    let mut set = PathSet::new();
    assert!(set.insert(path("/a")));
    assert!(!set.insert(path("/a")));
    assert!(set.insert(path("/b")));
    assert_eq!(set.len(), 2);
    assert!(set.remove(&path("/a")));
    assert!(!set.remove(&path("/a")));
    assert!(!set.contains(&path("/a")));
    assert!(set.contains(&path("/b")));
}
