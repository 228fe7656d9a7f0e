//! The table of directories, and what stands in its place while there is none.

use crate::app::App;
use crate::draw::{
    cell_views, row_views, Alignment, Block, BlockView, Cell, CellView, Drawing, DrawingView,
    Paragraph, ParagraphView, Row, RowView, Table, TableView, Widget, WidgetView,
};
use crate::entry::{DeleteStatus, EntryView, StatusView, TargetEntry};
use crate::layout::{Constraint, Rect};
use crate::model::{AppMode, AppView};
use crate::path::{display_relative_path, path_text, relative_path_text};
use crate::pieces::{
    compact_path_text, compact_relative_path, highlight_text, highlighted, spinner,
    spinner_picture, status_sign, status_span,
};
use crate::size::{format_bytes, format_size_cell, size_cell_text, size_text};
use crate::style::{
    bold_style, both_style, fg_style, line_of, line_views, plain_style, raw, span_views, styled,
    Color, Line, LineView, Span, Style, Text, TextView,
};
use crate::text::{decimal, decimal_text};
use crate::time::{days_ago_text, days_since, relative_time, Timestamp};
use vstd::prelude::*;

verus! {

/// The style of a row: muted once the directory is gone, in the colour of errors where its
/// removal failed, else with a mark behind the row under the cursor.
pub open spec fn row_style(status: StatusView, is_active: bool) -> Style {
    match status {
        StatusView::Deleted => both_style(Color::TextMuted, Color::Background),
        StatusView::Failed(_) => both_style(Color::AccentError, Color::Background),
        _ => if is_active {
            both_style(Color::TextPrimary, Color::ActiveRow)
        } else {
            both_style(Color::TextPrimary, Color::Background)
        },
    }
}

/// What is said behind a name of the removal of its directory.
pub open spec fn status_suffix(status: StatusView) -> Seq<char> {
    match status {
        StatusView::Ready => ""@,
        StatusView::Deleting => " deleting…"@,
        StatusView::Deleted => " deleted"@,
        StatusView::Failed(reason) => " failed: "@ + reason,
    }
}

/// A cell without a style of its own.
pub open spec fn plain_cell(text: TextView) -> CellView {
    CellView { text, style: plain_style() }
}

/// The row of an entry: its sign, its name, its size, its age and its path. Sizes of a gigabyte
/// and more stand out.
pub open spec fn entry_row(
    entry: EntryView,
    is_selected: bool,
    is_active: bool,
    query: Seq<char>,
    tick: int,
    now: Timestamp,
) -> RowView {
    let style = row_style(entry.delete_status, is_active);
    let mark = styled(
        if is_active {
            "▸"@
        } else {
            " "@
        },
        fg_style(Color::AccentPrimary),
    );
    let size_style = if entry.effective_size() >= 0x4000_0000 {
        Style { fg: Some(Color::AccentWarning), ..style }
    } else {
        style
    };
    let name = entry.display_name + status_suffix(entry.delete_status);
    RowView {
        cells: seq![
            plain_cell(
                TextView::Lines(
                    seq![
                        LineView::Spans(
                            seq![mark, raw(" "@), status_sign(entry, is_selected, tick)],
                        ),
                    ],
                ),
            ),
            plain_cell(TextView::Lines(seq![highlighted(name, query)])),
            CellView {
                text: TextView::Plain(size_cell_text(entry.effective_size() as nat)),
                style: size_style,
            },
            plain_cell(TextView::Plain(days_ago_text(days_since(now, entry.modified_at)))),
            plain_cell(
                TextView::Lines(seq![highlighted(compact_path_text(entry.relative_path), query)]),
            ),
        ],
        style,
    }
}

/// Makes a cell without a style of its own.
fn make_cell(text: Text) -> (result: Cell)
    ensures
        result@ == plain_cell(text@),
{
    Cell { text, style: Style::plain() }
}

/// Makes the row of an entry.
fn make_row(
    entry: &TargetEntry,
    is_selected: bool,
    is_active: bool,
    query: &str,
    tick: usize,
    now: Timestamp,
) -> (result: Row)
    ensures
        result@ == entry_row(entry@, is_selected, is_active, query@, tick as int, now),
{
    let style = match &entry.delete_status {
        DeleteStatus::Deleted => Style::both(Color::TextMuted, Color::Background),
        DeleteStatus::Failed(_) => Style::both(Color::AccentError, Color::Background),
        _ => if is_active {
            Style::both(Color::TextPrimary, Color::ActiveRow)
        } else {
            Style::both(Color::TextPrimary, Color::Background)
        },
    };
    let size: u64 = entry.effective_size_bytes();
    let size_style = if size >= 0x4000_0000 {
        Style { fg: Some(Color::AccentWarning), bg: style.bg, bold: style.bold }
    } else {
        style
    };
    let suffix = match &entry.delete_status {
        DeleteStatus::Ready => "".to_owned(),
        DeleteStatus::Deleting => " deleting…".to_owned(),
        DeleteStatus::Deleted => " deleted".to_owned(),
        DeleteStatus::Failed(reason) => " failed: ".to_owned().concat(reason.as_str()),
    };
    let mark = Span::styled(
        if is_active {
            "▸".to_owned()
        } else {
            " ".to_owned()
        },
        Style::fg(Color::AccentPrimary),
    );
    let space = Span::raw(" ".to_owned());
    let sign = status_span(entry, is_selected, tick);
    let spans = vec![mark, space, sign];
    assert(span_views(spans@) =~= seq![mark@, space@, sign@]);
    let name = entry.display_name.clone().concat(suffix.as_str());
    let path = compact_relative_path(entry.relative_path.as_str());
    let first = make_cell(Text::of(Line::Spans(spans)));
    let second = make_cell(Text::of(highlight_text(name.as_str(), query)));
    let third = Cell { text: Text::Plain(format_size_cell(size)), style: size_style };
    let fourth = make_cell(Text::Plain(relative_time(now, entry.modified_at)));
    let fifth = make_cell(Text::of(highlight_text(path.as_str(), query)));
    let cells = vec![first, second, third, fourth, fifth];
    assert(cell_views(cells@) =~= seq![first@, second@, third@, fourth@, fifth@]);
    Row { cells, style }
}

/// The rows of the table.
pub open spec fn table_rows(state: AppView, now: Timestamp) -> Seq<RowView> {
    Seq::new(
        state.filtered_indices.len(),
        |row: int|
            {
                let entry = state.entries[state.filtered_indices[row] as int];
                entry_row(
                    entry,
                    state.selected.contains(entry.target_path),
                    row == state.cursor,
                    state.search_query,
                    state.animation_tick as int,
                    now,
                )
            },
    )
}

/// Makes the rows of the table.
fn make_rows(app: &App, now: Timestamp) -> (result: Vec<Row>)
    requires
        app@.wf(),
    ensures
        row_views(result@) == table_rows(app@, now),
{
    let ghost all = table_rows(app@, now);
    let mut result: Vec<Row> = Vec::new();
    let mut row: usize = 0;
    assert(row_views(result@) =~= all.take(0));
    while row < app.filtered_indices.len()
        invariant
            app@.wf(),
            row <= app.filtered_indices@.len(),
            all == table_rows(app@, now),
            row_views(result@) == all.take(row as int),
        decreases app.filtered_indices@.len() - row,
    {
        let ghost before = row_views(result@);
        let index: usize = app.filtered_indices[row];
        assert(app@.filtered_indices[row as int] < app@.entries.len());
        let entry = &app.entries[index];
        assert(app@.entries[index as int] == entry@);
        let made = make_row(
            entry,
            app.selected.contains(&entry.target_path),
            row == app.cursor,
            app.search_query.as_str(),
            app.animation_tick,
            now,
        );
        result.push(made);
        row += 1;
        proof {
            assert(made@ == all[row - 1]);
            assert(row_views(result@) =~= before.push(made@));
            assert(all.take(row as int) =~= all.take(row - 1).push(all[row - 1]));
        }
    }
    assert(all.take(all.len() as int) =~= all);
    result
}

/// The names of the columns.
pub open spec fn table_header() -> RowView {
    RowView {
        cells: seq![
            plain_cell(TextView::Plain(""@)),
            plain_cell(TextView::Plain("PROJECT"@)),
            plain_cell(TextView::Plain("SIZE"@)),
            plain_cell(TextView::Plain("MODIFIED"@)),
            plain_cell(TextView::Plain("TARGET"@)),
        ],
        style: bold_style(Color::TextMuted),
    }
}

/// Makes the names of the columns.
fn make_header() -> (result: Row)
    ensures
        result@ == table_header(),
{
    let first = make_cell(Text::Plain("".to_owned()));
    let second = make_cell(Text::Plain("PROJECT".to_owned()));
    let third = make_cell(Text::Plain("SIZE".to_owned()));
    let fourth = make_cell(Text::Plain("MODIFIED".to_owned()));
    let fifth = make_cell(Text::Plain("TARGET".to_owned()));
    let cells = vec![first, second, third, fourth, fifth];
    assert(cell_views(cells@) =~= seq![first@, second@, third@, fourth@, fifth@]);
    Row { cells, style: Style::bold(Color::TextMuted) }
}

/// The widths of the columns.
pub open spec fn column_widths() -> Seq<Constraint> {
    seq![
        Constraint::Length(4),
        Constraint::Percentage(28),
        Constraint::Length(12),
        Constraint::Length(14),
        Constraint::Min(18),
    ]
}

/// The table of directories.
pub open spec fn table_view(state: AppView, now: Timestamp) -> TableView {
    TableView {
        header: table_header(),
        rows: table_rows(state, now),
        widths: column_widths(),
        column_spacing: 1,
        block: BlockView { title: None, style: both_style(Color::Border, Color::Background) },
    }
}

/// Lines in the middle of a frame.
pub open spec fn centered_paragraph(lines: Seq<LineView>) -> ParagraphView {
    ParagraphView {
        text: TextView::Lines(lines),
        style: plain_style(),
        alignment: Alignment::Center,
        wrap: false,
        block: Some(BlockView { title: None, style: fg_style(Color::Border) }),
    }
}

/// Makes lines in the middle of a frame.
fn make_centered(lines: Vec<Line>) -> (result: Paragraph)
    ensures
        result@ == centered_paragraph(line_views(lines@)),
{
    Paragraph {
        text: Text::Lines(lines),
        style: Style::plain(),
        alignment: Alignment::Center,
        wrap: false,
        block: Some(Block { title: None, style: Style::fg(Color::Border) }),
    }
}

/// What is shown while a scan has found nothing yet.
pub open spec fn scan_state_drawing(state: AppView, area: Rect) -> DrawingView {
    DrawingView {
        area,
        widget: WidgetView::Paragraph(
            centered_paragraph(
                seq![
                    line_of(
                        styled(
                            spinner_picture(state.animation_tick as int) + "  Scanning "@
                                + path_text(state.root),
                            bold_style(Color::TextPrimary),
                        ),
                    ),
                    LineView::Plain(""@),
                    line_of(
                        styled(
                            decimal(state.scan_summary.discovered as nat) + " projects found · "@
                                + size_text(state.scan_summary.total_bytes as nat) + " so far"@,
                            fg_style(Color::TextSecondary),
                        ),
                    ),
                    line_of(
                        styled(
                            match state.scan_summary.current_path {
                                Some(path) => "looking at "@ + relative_path_text(state.root, path),
                                None => "walking the filesystem"@,
                            },
                            fg_style(Color::TextMuted),
                        ),
                    ),
                ],
            ),
        ),
    }
}

/// Draws what is shown while a scan has found nothing yet.
pub fn render_scan_state(area: Rect, app: &App) -> (result: Drawing)
    ensures
        result@ == scan_state_drawing(app@, area),
{
    let first = Line::of(
        Span::styled(
            spinner(app.animation_tick).to_owned().concat("  Scanning ").concat(
                app.root.to_text().as_str(),
            ),
            Style::bold(Color::TextPrimary),
        ),
    );
    let second = Line::Plain("".to_owned());
    let third = Line::of(
        Span::styled(
            decimal_text(app.scan_summary.discovered as u128).concat(" projects found · ").concat(
                format_bytes(app.scan_summary.total_bytes).as_str(),
            ).concat(" so far"),
            Style::fg(Color::TextSecondary),
        ),
    );
    let place = match &app.scan_summary.current_path {
        Some(path) => "looking at ".to_owned().concat(
            display_relative_path(&app.root, path).as_str(),
        ),
        None => "walking the filesystem".to_owned(),
    };
    let fourth = Line::of(Span::styled(place, Style::fg(Color::TextMuted)));
    let lines = vec![first, second, third, fourth];
    assert(line_views(lines@) =~= seq![first@, second@, third@, fourth@]);
    Drawing { area, widget: Widget::Paragraph(make_centered(lines)) }
}

/// What is shown where a scan has found nothing.
pub open spec fn empty_state_drawing(area: Rect) -> DrawingView {
    DrawingView {
        area,
        widget: WidgetView::Paragraph(
            centered_paragraph(
                seq![
                    line_of(styled("✓"@, fg_style(Color::AccentSuccess))),
                    LineView::Plain(""@),
                    line_of(
                        styled("No reclaimable target/ found"@, bold_style(Color::TextPrimary)),
                    ),
                    line_of(
                        styled(
                            "The current directory is already clean."@,
                            fg_style(Color::TextSecondary),
                        ),
                    ),
                ],
            ),
        ),
    }
}

/// Draws what is shown where a scan has found nothing.
pub fn render_empty_state(area: Rect) -> (result: Drawing)
    ensures
        result@ == empty_state_drawing(area),
{
    let first = Line::of(Span::styled("✓".to_owned(), Style::fg(Color::AccentSuccess)));
    let second = Line::Plain("".to_owned());
    let third = Line::of(
        Span::styled("No reclaimable target/ found".to_owned(), Style::bold(Color::TextPrimary)),
    );
    let fourth = Line::of(
        Span::styled(
            "The current directory is already clean.".to_owned(),
            Style::fg(Color::TextSecondary),
        ),
    );
    let lines = vec![first, second, third, fourth];
    assert(line_views(lines@) =~= seq![first@, second@, third@, fourth@]);
    Drawing { area, widget: Widget::Paragraph(make_centered(lines)) }
}

/// What is shown of the list: the table, or what stands in its place.
pub open spec fn list_drawing(state: AppView, area: Rect, now: Timestamp) -> DrawingView {
    if state.entries.len() > 0 {
        DrawingView { area, widget: WidgetView::Table(table_view(state, now)) }
    } else if state.mode is Scanning {
        scan_state_drawing(state, area)
    } else {
        empty_state_drawing(area)
    }
}

/// Draws the table, or what stands in its place. Where the table is drawn, it marks the row
/// under the cursor.
pub fn render_table_or_state(area: Rect, app: &mut App, now: Timestamp) -> (result: Drawing)
    requires
        old(app)@.wf(),
    ensures
        result@ == list_drawing(old(app)@, area, now),
        final(app)@ == if old(app)@.entries.len() > 0 {
            old(app)@.synced()
        } else {
            old(app)@
        },
        final(app)@.wf(),
{
    if app.entries.is_empty() {
        return match app.mode {
            AppMode::Scanning => render_scan_state(area, app),
            _ => render_empty_state(area),
        };
    }
    let widths = vec![
        Constraint::Length(4),
        Constraint::Percentage(28),
        Constraint::Length(12),
        Constraint::Length(14),
        Constraint::Min(18),
    ];
    assert(widths@ =~= column_widths());
    let table = Table {
        header: make_header(),
        rows: make_rows(app, now),
        widths,
        column_spacing: 1,
        block: Block { title: None, style: Style::both(Color::Border, Color::Background) },
    };
    app.sync_table_state();
    Drawing { area, widget: Widget::Table(table) }
}

} // verus!
