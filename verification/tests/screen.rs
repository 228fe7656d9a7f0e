use purgee::app::App;
use purgee::draw::{Alignment, Block, Cell, Drawing, Paragraph, Row, Table, Widget};
use purgee::entry::{DeleteStatus, TargetEntry};
use purgee::layout::{Constraint, Rect};
use purgee::model::{AppMode, TableCursor};
use purgee::path::{Component, FileName, FilePath};
use purgee::render::{render, render_search, render_stat_card, render_stats};
use purgee::style::{Color, Line, Span, Style, Text};
use purgee::time::{TimeSpan, Timestamp};
use ratatui::backend::TestBackend;
use ratatui::widgets::TableState;
use ratatui::Terminal;

fn path(text: &str) -> FilePath {
    FilePath {
        components: std::path::Path::new(text)
            .components()
            .map(|component| match component {
                std::path::Component::RootDir => Component::Root,
                std::path::Component::CurDir => Component::Current,
                std::path::Component::ParentDir => Component::Parent,
                std::path::Component::Normal(name) => {
                    Component::Normal(FileName::from_text(name.to_str().unwrap()))
                }
                std::path::Component::Prefix(_) => unreachable!(),
            })
            .collect(),
    }
}
fn draw(frame: &mut ratatui::Frame<'_>, drawings: Vec<Drawing>, table: &mut TableCursor) {
    for drawing in drawings {
        let area = rect_out(drawing.area);
        match drawing.widget {
            Widget::Fill(style) => {
                frame.render_widget(ratatui::widgets::Block::default().style(style_out(style)), area);
            }
            Widget::Clear => frame.render_widget(ratatui::widgets::Clear, area),
            Widget::Block(block) => frame.render_widget(block_out(block), area),
            Widget::Paragraph(paragraph) => frame.render_widget(paragraph_out(paragraph), area),
            Widget::Table(rows) => {
                let mut state = TableState::default()
                    .with_offset(table.offset)
                    .with_selected(table.selected);
                frame.render_stateful_widget(table_out(rows), area, &mut state);
                table.selected = state.selected();
                table.offset = state.offset();
            }
        }
    }
}

fn style_out(style: Style) -> ratatui::style::Style {
    let mut result = ratatui::style::Style::default();
    if let Some(color) = style.fg {
        let (red, green, blue) = color.rgb();
        result = result.fg(ratatui::style::Color::Rgb(red, green, blue));
    }
    if let Some(color) = style.bg {
        let (red, green, blue) = color.rgb();
        result = result.bg(ratatui::style::Color::Rgb(red, green, blue));
    }
    if style.bold {
        result = result.add_modifier(ratatui::style::Modifier::BOLD);
    }
    result
}

fn span_out(span: Span) -> ratatui::text::Span<'static> {
    ratatui::text::Span::styled(span.text, style_out(span.style))
}

fn line_out(line: Line) -> ratatui::text::Line<'static> {
    match line {
        Line::Plain(text) => ratatui::text::Line::from(text),
        Line::Spans(spans) => {
            ratatui::text::Line::from(spans.into_iter().map(span_out).collect::<Vec<_>>())
        }
    }
}

fn text_out(text: Text) -> ratatui::text::Text<'static> {
    match text {
        Text::Plain(text) => ratatui::text::Text::from(text),
        Text::Lines(lines) => {
            ratatui::text::Text::from(lines.into_iter().map(line_out).collect::<Vec<_>>())
        }
    }
}

fn block_out(block: Block) -> ratatui::widgets::Block<'static> {
    let result = ratatui::widgets::Block::default().borders(ratatui::widgets::Borders::ALL);
    let result = match block.title {
        Some(title) => result.title(line_out(title)),
        None => result,
    };
    result.style(style_out(block.style))
}

fn paragraph_out(paragraph: Paragraph) -> ratatui::widgets::Paragraph<'static> {
    let mut result = ratatui::widgets::Paragraph::new(text_out(paragraph.text))
        .style(style_out(paragraph.style))
        .alignment(match paragraph.alignment {
            Alignment::Left => ratatui::layout::Alignment::Left,
            Alignment::Center => ratatui::layout::Alignment::Center,
        });
    if paragraph.wrap {
        result = result.wrap(ratatui::widgets::Wrap { trim: true });
    }
    if let Some(block) = paragraph.block {
        result = result.block(block_out(block));
    }
    result
}

fn cell_out(cell: Cell) -> ratatui::widgets::Cell<'static> {
    ratatui::widgets::Cell::from(text_out(cell.text)).style(style_out(cell.style))
}

fn row_out(row: Row) -> ratatui::widgets::Row<'static> {
    ratatui::widgets::Row::new(row.cells.into_iter().map(cell_out).collect::<Vec<_>>())
        .style(style_out(row.style))
}

fn table_out(table: Table) -> ratatui::widgets::Table<'static> {
    ratatui::widgets::Table::new(
        table.rows.into_iter().map(row_out).collect::<Vec<_>>(),
        table
            .widths
            .into_iter()
            .map(constraint_out)
            .collect::<Vec<_>>(),
    )
    .header(row_out(table.header))
    .block(block_out(table.block))
    .column_spacing(table.column_spacing)
}

fn rect_out(area: Rect) -> ratatui::layout::Rect {
    ratatui::layout::Rect {
        x: area.x,
        y: area.y,
        width: area.width,
        height: area.height,
    }
}

fn constraint_out(constraint: Constraint) -> ratatui::layout::Constraint {
    match constraint {
        Constraint::Length(length) => ratatui::layout::Constraint::Length(length),
        Constraint::Min(least) => ratatui::layout::Constraint::Min(least),
        Constraint::Percentage(share) => ratatui::layout::Constraint::Percentage(share),
    }
}

fn fake_entry(name: &str, size_bytes: u64) -> TargetEntry {
    TargetEntry {
        project_root: path(&format!("/tmp/{name}")),
        target_path: path(&format!("/tmp/{name}/target")),
        display_name: name.to_string(),
        relative_path: format!("./{name}/target"),
        size_bytes,
        original_size_bytes: size_bytes,
        modified_at: Timestamp::epoch(),
        delete_status: DeleteStatus::Ready,
    }
}

const NOW: Timestamp = Timestamp {
    secs: 86_400 * 3,
    nanos: 0,
};

fn show(terminal: &mut Terminal<TestBackend>, app: &mut App) -> String {
    terminal
        .draw(|frame| {
            let area = frame.area();
            let screen = Rect {
                x: area.x,
                y: area.y,
                width: area.width,
                height: area.height,
            };
            let drawings = render(screen, app, NOW);
            draw(frame, drawings, &mut app.table_state);
        })
        .unwrap();
    terminal
        .backend()
        .buffer()
        .content()
        .iter()
        .map(|cell| cell.symbol())
        .collect::<String>()
}

fn rect(x: u16, y: u16, width: u16, height: u16) -> Rect {
    Rect {
        x,
        y,
        width,
        height,
    }
}

fn plain_text(drawing: &Drawing) -> &str {
    match &drawing.widget {
        Widget::Paragraph(Paragraph {
            text: Text::Plain(text),
            ..
        }) => text,
        _ => panic!("a paragraph of one text was to be drawn"),
    }
}

#[test]
fn render_empty_and_inline_delete_states() {
    let mut app = App::new(path("/tmp/purgee-test-1-0"));
    app.mode = AppMode::Browsing;

    let mut terminal = Terminal::new(TestBackend::new(120, 40)).unwrap();
    let empty = show(&mut terminal, &mut app);
    assert!(empty.contains("No reclaimable target/ found"));

    app.entries = vec![fake_entry("alpha", 1024)];
    app.recompute_view();
    app.entries[0].delete_status = DeleteStatus::Deleting;
    let deleting = show(&mut terminal, &mut app);
    assert!(deleting.contains("deleting"));

    app.entries[0].delete_status = DeleteStatus::Deleted;
    app.entries[0].size_bytes = 0;
    let deleted = show(&mut terminal, &mut app);
    assert!(deleted.contains("deleted"));
    assert!(deleted.contains("0 B"));

    app.entries[0].delete_status = DeleteStatus::Failed("permission denied".to_string());
    app.entries[0].size_bytes = 1024;
    let failed = show(&mut terminal, &mut app);
    assert!(failed.contains("failed"));
}

#[test]
fn whole_screen_is_shown() {
    let mut app = App::new(path("/work"));
    let mut terminal = Terminal::new(TestBackend::new(170, 40)).unwrap();
    let scanning = show(&mut terminal, &mut app);
    assert!(scanning.contains(" purgee /work  scanned 0 in 0.0s "));
    assert!(scanning.contains("⠋  Scanning /work"));
    assert!(scanning.contains("0 projects found · 0 B so far"));
    assert!(scanning.contains("walking the filesystem"));
    app.scan_summary.current_path = Some(path("/work/a/target"));
    let found = show(&mut terminal, &mut app);
    assert!(found.contains("looking at ./a/target"));
    assert!(found.contains("⠋  Scanning ./a/target"));

    app.mode = AppMode::Browsing;
    app.entries = vec![fake_entry("alpha", 1 << 30), fake_entry("beta", 2048)];
    app.scan_summary.discovered = 2;
    app.scan_summary.total_bytes = app.cached_total_bytes();
    app.scan_summary.elapsed = TimeSpan {
        secs: 1,
        nanos: 250_000_000,
    };
    app.recompute_view();
    app.toggle_current_selection();
    let list = show(&mut terminal, &mut app);
    assert!(list.contains("scanned 2 in 1.2s"));
    assert!(list.contains("2 scanned · 2 remaining"));
    assert!(list.contains("across 2 remaining"));
    assert!(list.contains("in 1 projects"));
    assert!(list.contains("alpha   1.0 GB"));
    assert!(list.contains("▸ ✓"));
    assert!(list.contains("3 days ago"));
    assert!(list.contains("PROJECT"));
    assert!(list.contains("Search ›  type to filter…"));
    assert!(list.contains("Sort: Size ↓"));
    assert!(list.contains("↑↓ navigate  space select"));

    app.entries[1].delete_status = DeleteStatus::Deleted;
    app.scan_warnings = vec!["x".to_string()];
    let cleaned = show(&mut terminal, &mut app);
    assert!(cleaned.contains("1 cleaned · 2.0 KB freed"));
    assert!(cleaned.contains("2 scanned · 1 remaining · 1 scan warnings"));
    app.entries[0].delete_status = DeleteStatus::Deleting;
    let deleting = show(&mut terminal, &mut app);
    assert!(deleting.contains("⠋  Deleting 1 target folder "));
    app.entries[1].delete_status = DeleteStatus::Deleting;
    let both = show(&mut terminal, &mut app);
    assert!(both.contains("⠋  Deleting 2 target folders"));

    app.mode = AppMode::Searching;
    let searching = show(&mut terminal, &mut app);
    assert!(searching.contains("Search › █"));
    assert!(searching.contains("esc cancel  enter apply  type filter"));
    app.mode = AppMode::SortMenu { index: 1 };
    let menu = show(&mut terminal, &mut app);
    assert!(menu.contains(" Sort by "));
    assert!(menu.contains("  Size       ↓"));
    assert!(menu.contains("▸ Name        "));
    app.mode = AppMode::Help;
    let help = show(&mut terminal, &mut app);
    assert!(help.contains("q / ctrl-c  Quit"));
    assert!(help.contains("d           Delete focused row immediately"));
}

#[test]
fn small_screens_are_drawn_without_harm() {
    for (width, height) in [(0, 0), (1, 1), (2, 2), (3, 9), (10, 5), (40, 12), (20, 19)] {
        for mode in [
            AppMode::Browsing,
            AppMode::Help,
            AppMode::SortMenu { index: 0 },
        ] {
            let mut app = App::new(path("/work"));
            app.entries = vec![fake_entry("alpha", 1024), fake_entry("beta", 2048)];
            app.recompute_view();
            app.mode = mode;
            let mut terminal = Terminal::new(TestBackend::new(width, height)).unwrap();
            show(&mut terminal, &mut app);
            for drawing in render(rect(0, 0, width, height), &mut app, NOW) {
                assert!(drawing.area.x + drawing.area.width <= width);
                assert!(drawing.area.y + drawing.area.height <= height);
            }
        }
    }
}

#[test]
fn cards_lie_side_by_side() {
    let app = App::new(path("/work"));
    for width in 0..400u16 {
        let drawings = render_stats(rect(5, 7, width, 5), &app);
        assert_eq!(drawings.len(), 6);
        let first = ((width as u32 * 28 + 50) / 100) as u16;
        let second = ((width as u32 * 56 + 50) / 100) as u16;
        assert_eq!(drawings[0].area, rect(5, 7, first, 5));
        assert_eq!(drawings[2].area, rect(5 + first, 7, second - first, 5));
        assert_eq!(drawings[4].area, rect(5 + second, 7, width - second, 5));
    }
}

#[test]
fn borders_take_one_cell_on_each_side() {
    let inside = |area: Rect| {
        let drawings = render_stat_card(
            area,
            "Title",
            "value".to_string(),
            "detail".to_string(),
            Color::TextPrimary,
        );
        assert_eq!(drawings[0].area, area);
        drawings[1].area
    };
    assert_eq!(inside(rect(2, 3, 10, 5)), rect(3, 4, 8, 3));
    assert_eq!(inside(rect(2, 3, 1, 1)), rect(3, 4, 0, 0));
    assert_eq!(inside(rect(2, 3, 0, 2)), rect(2, 4, 0, 0));
    assert_eq!(
        inside(rect(65_535, 65_534, 4, 1)),
        rect(65_535, 65_535, 2, 0)
    );
}

#[test]
fn largest_is_the_last_of_the_largest() {
    let mut app = App::new(path("/work"));
    app.entries = vec![
        fake_entry("alpha", 2048),
        fake_entry("beta", 2048),
        fake_entry("gamma", 1),
    ];
    let largest = |app: &App| {
        let drawings = render_stats(rect(0, 0, 90, 5), app);
        match &drawings[5].widget {
            Widget::Paragraph(Paragraph {
                text: Text::Lines(lines),
                ..
            }) => match &lines[0] {
                Line::Spans(spans) => spans[0].text.clone(),
                Line::Plain(text) => text.clone(),
            },
            _ => panic!("a paragraph was to be drawn"),
        }
    };
    assert_eq!(largest(&app), "beta   2.0 KB");
    app.entries[1].delete_status = DeleteStatus::Deleted;
    assert_eq!(largest(&app), "alpha   2.0 KB");
    app.entries.clear();
    assert_eq!(largest(&app), "No target folders");
}

#[test]
fn search_line_is_flush_on_both_sides() {
    let mut app = App::new(path("/work"));
    app.mode = AppMode::Browsing;
    app.search_query = "abc".to_string();
    let drawings = render_search(rect(0, 0, 42, 3), &app);
    assert_eq!(
        plain_text(&drawings[1]),
        "Search › abc                Sort: Size ↓"
    );
    let narrow = render_search(rect(0, 0, 10, 3), &app);
    assert_eq!(plain_text(&narrow[1]), "Search › abc Sort: Size ↓");
}
