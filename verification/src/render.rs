//! What the screen shows of the state.

use crate::app::App;
use crate::draw::{
    drawing_views, Alignment, Block, BlockView, Drawing, DrawingView, Paragraph, ParagraphView,
    Widget, WidgetView,
};
use crate::duration::{duration_text, format_duration};
use crate::entry::{entry_views, sort_field_label, sort_order_symbol, EntryView, TargetEntry};
use crate::layout::{
    bordered_inner, cells, divides, extent_of, filled_start, filler_comes_first, fills,
    hundredths, inside_borders, only_filler, share, split, strip, Constraint, Direction, Rect,
};
use crate::model::{AppMode, AppView};
use crate::path::{display_relative_path, path_text, relative_path_text};
use crate::pieces::{footer_spans, key_hints, pair_views, spinner, spinner_picture};
use crate::popups::{help_drawings, render_help, render_sort_menu, sort_menu_drawings};
use crate::size::{format_bytes, size_text};
use crate::style::{
    bg_style, bold_style, both_style, fg_style, line_of, line_views, plain_style, raw, span_views,
    styled, Color, Line, LineView, Span, SpanView, Style, Text, TextView,
};
use crate::table::{list_drawing, render_table_or_state};
use crate::text::{decimal, decimal_text, spaces, spaces_text};
use crate::time::Timestamp;
use crate::totals::effective_total;
use vstd::prelude::*;

verus! {

/// A paragraph without a frame, flush left.
pub open spec fn simple_paragraph(text: TextView, style: Style) -> ParagraphView {
    ParagraphView { text, style, alignment: Alignment::Left, wrap: false, block: None }
}

/// The line above all others: what the program is doing, or what it has found.
pub open spec fn header_text(state: AppView) -> Seq<char> {
    if state.mode is Scanning {
        spinner_picture(state.animation_tick as int) + "  Scanning "@ + match state.scan_summary.current_path {
            Some(path) => relative_path_text(state.root, path),
            None => path_text(state.root),
        }
    } else {
        let deleting = state.deleting_entries().len();
        let counts = decimal(state.entries.len()) + " scanned · "@ + decimal(
            state.remaining_entries().len(),
        ) + " remaining"@;
        if deleting > 0 {
            spinner_picture(state.animation_tick as int) + "  Deleting "@ + decimal(deleting)
                + " target folder"@ + if deleting == 1 {
                ""@
            } else {
                "s"@
            }
        } else if state.scan_warnings.len() == 0 {
            counts
        } else {
            counts + " · "@ + decimal(state.scan_warnings.len()) + " scan warnings"@
        }
    }
}

/// What is drawn above all else.
pub open spec fn header_drawing(state: AppView, area: Rect) -> DrawingView {
    DrawingView {
        area,
        widget: WidgetView::Paragraph(
            simple_paragraph(
                TextView::Plain(header_text(state)),
                both_style(Color::TextSecondary, Color::Background),
            ),
        ),
    }
}

/// Draws the line above all others.
pub fn render_header(area: Rect, app: &App) -> (result: Drawing)
    ensures
        result@ == header_drawing(app@, area),
{
    let status = match app.mode {
        AppMode::Scanning => {
            let place = match &app.scan_summary.current_path {
                Some(path) => display_relative_path(&app.root, path),
                None => app.root.to_text(),
            };
            spinner(app.animation_tick).to_owned().concat("  Scanning ").concat(place.as_str())
        },
        _ => {
            let deleting: usize = app.deleting_count();
            let counts = decimal_text(app.entries.len() as u128).concat(" scanned · ").concat(
                decimal_text(app.remaining_target_count() as u128).as_str(),
            ).concat(" remaining");
            if deleting > 0 {
                spinner(app.animation_tick).to_owned().concat("  Deleting ").concat(
                    decimal_text(deleting as u128).as_str(),
                ).concat(" target folder").concat(
                    if deleting == 1 {
                        ""
                    } else {
                        "s"
                    },
                )
            } else if app.scan_warnings.is_empty() {
                counts
            } else {
                counts.concat(" · ").concat(
                    decimal_text(app.scan_warnings.len() as u128).as_str(),
                ).concat(" scan warnings")
            }
        },
    };
    Drawing {
        area,
        widget: Widget::Paragraph(
            Paragraph {
                text: Text::Plain(status),
                style: Style::both(Color::TextSecondary, Color::Background),
                alignment: Alignment::Left,
                wrap: false,
                block: None,
            },
        ),
    }
}

/// A card with a number: a frame with a title, and inside it the value and what it is of.
pub open spec fn card_drawings(
    area: Rect,
    title: Seq<char>,
    value: Seq<char>,
    detail: Seq<char>,
    value_color: Color,
) -> Seq<DrawingView> {
    seq![
        DrawingView {
            area,
            widget: WidgetView::Block(
                BlockView {
                    title: Some(LineView::Plain(title)),
                    style: both_style(Color::Border, Color::Surface),
                },
            ),
        },
        DrawingView {
            area: inside_borders(area),
            widget: WidgetView::Paragraph(
                ParagraphView {
                    text: TextView::Lines(
                        seq![
                            line_of(styled(value, bold_style(value_color))),
                            line_of(styled(detail, fg_style(Color::TextMuted))),
                        ],
                    ),
                    style: plain_style(),
                    alignment: Alignment::Left,
                    wrap: true,
                    block: None,
                },
            ),
        },
    ]
}

/// Draws a card with a number.
pub fn render_stat_card(
    area: Rect,
    title: &str,
    value: String,
    detail: String,
    value_color: Color,
) -> (result: Vec<Drawing>)
    ensures
        drawing_views(result@) == card_drawings(area, title@, value@, detail@, value_color),
{
    let block = Drawing {
        area,
        widget: Widget::Block(
            Block {
                title: Some(Line::Plain(title.to_owned())),
                style: Style::both(Color::Border, Color::Surface),
            },
        ),
    };
    let ghost value_line = line_of(styled(value@, bold_style(value_color)));
    let ghost detail_line = line_of(styled(detail@, fg_style(Color::TextMuted)));
    let lines = vec![
        Line::of(Span::styled(value, Style::bold(value_color))),
        Line::of(Span::styled(detail, Style::fg(Color::TextMuted))),
    ];
    assert(line_views(lines@) =~= seq![value_line, detail_line]);
    let content = Drawing {
        area: bordered_inner(area),
        widget: Widget::Paragraph(
            Paragraph {
                text: Text::Lines(lines),
                style: Style::plain(),
                alignment: Alignment::Left,
                wrap: true,
                block: None,
            },
        ),
    };
    let result = vec![block, content];
    assert(drawing_views(result@) =~= seq![block@, content@]);
    result
}

/// The largest directory that is not gone, the last one of those that are equally large.
pub open spec fn largest_remaining(entries: Seq<EntryView>) -> Option<EntryView>
    decreases entries.len(),
{
    if entries.len() == 0 {
        None
    } else {
        let before = largest_remaining(entries.drop_last());
        let entry = entries.last();
        match before {
            Some(largest) => if entry.delete_status is Deleted || entry.effective_size()
                < largest.effective_size() {
                before
            } else {
                Some(entry)
            },
            None => if entry.delete_status is Deleted {
                None
            } else {
                Some(entry)
            },
        }
    }
}

/// Finds the largest directory that is not gone.
fn find_largest(entries: &Vec<TargetEntry>) -> (result: Option<&TargetEntry>)
    ensures
        match (result, largest_remaining(entry_views(entries@))) {
            (Some(found), Some(entry)) => found@ == entry,
            (None, None) => true,
            _ => false,
        },
{
    let ghost all = entry_views(entries@);
    let mut result: Option<&TargetEntry> = None;
    let mut index: usize = 0;
    while index < entries.len()
        invariant
            index <= entries@.len(),
            all == entry_views(entries@),
            match (result, largest_remaining(all.take(index as int))) {
                (Some(found), Some(entry)) => found@ == entry,
                (None, None) => true,
                _ => false,
            },
        decreases entries@.len() - index,
    {
        let entry = &entries[index];
        assert(all[index as int] == entry@);
        assert(all.take(index + 1).drop_last() =~= all.take(index as int));
        if !entry.delete_status.is_deleted() {
            match result {
                Some(largest) => {
                    if entry.effective_size_bytes() >= largest.effective_size_bytes() {
                        result = Some(entry);
                    }
                },
                None => {
                    result = Some(entry);
                },
            }
        }
        index += 1;
    }
    assert(all.take(all.len() as int) =~= all);
    result
}

/// What is said of the largest directory.
pub open spec fn largest_text(entries: Seq<EntryView>) -> Seq<char> {
    match largest_remaining(entries) {
        Some(entry) => entry.display_name + "   "@ + size_text(entry.effective_size() as nat),
        None => "No target folders"@,
    }
}

/// The shares of the width that the three cards get.
pub open spec fn card_shares() -> Seq<Constraint> {
    seq![Constraint::Percentage(28), Constraint::Percentage(28), Constraint::Percentage(44)]
}

/// The areas of the three cards.
pub open spec fn card_areas(area: Rect) -> Seq<Rect> {
    let width = extent_of(Direction::Horizontal, area);
    seq![
        strip(Direction::Horizontal, area, 0, share(width, 28)),
        strip(Direction::Horizontal, area, share(width, 28), share(width, 56)),
        strip(Direction::Horizontal, area, share(width, 56), width),
    ]
}

proof fn cards_share_the_width(area: Rect, parts: Seq<Rect>)
    requires
        divides(Direction::Horizontal, card_shares(), area, parts),
    ensures
        parts == card_areas(area),
{
    let all = card_shares();
    let width = extent_of(Direction::Horizontal, area);
    assert(all.take(3) =~= all);
    assert(all.take(3).drop_last() =~= all.take(2));
    assert(all.take(2).drop_last() =~= all.take(1));
    assert(all.take(1).drop_last() =~= all.take(0));
    assert(hundredths(all.take(0)) == Some(0nat));
    assert(hundredths(all.take(1)) == Some(28nat));
    assert(hundredths(all.take(2)) == Some(56nat));
    assert(hundredths(all.take(3)) == Some(100nat));
    assert(share(width, 0) == 0);
    assert(share(width, 100) == width);
    assert(parts =~= card_areas(area));
}

/// The three cards: what can be freed, what is selected, and the largest directory.
pub open spec fn stats_drawings(state: AppView, area: Rect) -> Seq<DrawingView> {
    let areas = card_areas(area);
    card_drawings(
        areas[0],
        "Reclaimable"@,
        size_text(state.scan_summary.total_bytes as nat),
        "across "@ + decimal(state.remaining_entries().len()) + " remaining"@,
        Color::TextPrimary,
    ) + card_drawings(
        areas[1],
        "Selected"@,
        size_text(effective_total(state.selected_entries())),
        "in "@ + decimal(state.selected_entries().len()) + " projects"@,
        Color::AccentWarning,
    ) + card_drawings(
        areas[2],
        "Largest"@,
        largest_text(state.entries),
        "largest remaining target"@,
        Color::TextPrimary,
    )
}

/// Draws the three cards.
pub fn render_stats(area: Rect, app: &App) -> (result: Vec<Drawing>)
    requires
        app@.wf(),
    ensures
        drawing_views(result@) == stats_drawings(app@, area),
{
    let shares = vec![
        Constraint::Percentage(28),
        Constraint::Percentage(28),
        Constraint::Percentage(44),
    ];
    assert(shares@ =~= card_shares());
    let areas = split(Direction::Horizontal, &shares, area);
    proof {
        cards_share_the_width(area, areas@);
    }
    let mut result = render_stat_card(
        areas[0],
        "Reclaimable",
        format_bytes(app.scan_summary.total_bytes),
        "across ".to_owned().concat(
            decimal_text(app.remaining_target_count() as u128).as_str(),
        ).concat(" remaining"),
        Color::TextPrimary,
    );
    let ghost first = drawing_views(result@);
    let selected_count: usize = app.selected_entries().len();
    let mut selected = render_stat_card(
        areas[1],
        "Selected",
        format_bytes(app.selected_total_bytes()),
        "in ".to_owned().concat(decimal_text(selected_count as u128).as_str()).concat(" projects"),
        Color::AccentWarning,
    );
    let ghost second = drawing_views(selected@);
    let largest = match find_largest(&app.entries) {
        Some(entry) => entry.display_name.clone().concat("   ").concat(
            format_bytes(entry.effective_size_bytes()).as_str(),
        ),
        None => "No target folders".to_owned(),
    };
    let mut last = render_stat_card(
        areas[2],
        "Largest",
        largest,
        "largest remaining target".to_owned(),
        Color::TextPrimary,
    );
    let ghost third = drawing_views(last@);
    result.append(&mut selected);
    result.append(&mut last);
    assert(drawing_views(result@) =~= first + second + third);
    result
}

/// The query, or where it is to be typed.
pub open spec fn search_left(state: AppView) -> Seq<char> {
    if state.mode is Searching {
        "Search › "@ + state.search_query + "█"@
    } else if state.search_query.len() == 0 {
        "Search ›  type to filter…"@
    } else {
        "Search › "@ + state.search_query
    }
}

/// What the list is sorted by.
pub open spec fn search_right(state: AppView) -> Seq<char> {
    "Sort: "@ + sort_field_label(state.sort_field) + " "@ + sort_order_symbol(state.sort_order)
}

/// Two texts on one line, one flush left and one flush right, at least one space between them.
pub open spec fn flush_both(left: Seq<char>, right: Seq<char>, width: int) -> Seq<char> {
    let gap = width - left.len() - right.len();
    left + spaces(
        if gap > 1 {
            gap
        } else {
            1
        },
    ) + right
}

/// The line for the search.
pub open spec fn search_drawings(state: AppView, area: Rect) -> Seq<DrawingView> {
    let inner = inside_borders(area);
    let idle = state.search_query.len() == 0 && !(state.mode is Searching);
    seq![
        DrawingView {
            area,
            widget: WidgetView::Block(
                BlockView {
                    title: None,
                    style: both_style(
                        if state.mode is Searching {
                            Color::AccentPrimary
                        } else {
                            Color::Border
                        },
                        Color::Background,
                    ),
                },
            ),
        },
        DrawingView {
            area: inner,
            widget: WidgetView::Paragraph(
                simple_paragraph(
                    TextView::Plain(
                        flush_both(search_left(state), search_right(state), inner.width as int),
                    ),
                    both_style(
                        if idle {
                            Color::TextMuted
                        } else {
                            Color::TextPrimary
                        },
                        Color::Background,
                    ),
                ),
            ),
        },
    ]
}

/// Draws the line for the search.
pub fn render_search(area: Rect, app: &App) -> (result: Vec<Drawing>)
    ensures
        drawing_views(result@) == search_drawings(app@, area),
{
    let searching = match app.mode {
        AppMode::Searching => true,
        _ => false,
    };
    let idle = app.search_query.as_str().is_empty() && !searching;
    let border_color = if searching {
        Color::AccentPrimary
    } else {
        Color::Border
    };
    let block = Drawing {
        area,
        widget: Widget::Block(
            Block { title: None, style: Style::both(border_color, Color::Background) },
        ),
    };
    let inner = bordered_inner(area);
    let left = if idle {
        "Search ›  type to filter…".to_owned()
    } else {
        let typed = "Search › ".to_owned().concat(app.search_query.as_str());
        if searching {
            typed.concat("█")
        } else {
            typed
        }
    };
    let right = "Sort: ".to_owned().concat(app.sort_field.label()).concat(" ").concat(
        app.sort_order.symbol(),
    );
    let gap: usize = (inner.width as usize).saturating_sub(left.as_str().unicode_len()).saturating_sub(
        right.as_str().unicode_len(),
    );
    let gap_text = spaces_text(
        if gap > 1 {
            gap
        } else {
            1
        },
    );
    let line = left.concat(gap_text.as_str()).concat(right.as_str());
    let text_color = if idle {
        Color::TextMuted
    } else {
        Color::TextPrimary
    };
    let content = Drawing {
        area: inner,
        widget: Widget::Paragraph(
            Paragraph {
                text: Text::Plain(line),
                style: Style::both(text_color, Color::Background),
                alignment: Alignment::Left,
                wrap: false,
                block: None,
            },
        ),
    };
    let result = vec![block, content];
    assert(drawing_views(result@) =~= seq![block@, content@]);
    result
}

/// What the keys do in a mode.
pub open spec fn hint_pairs(mode: AppMode) -> Seq<(Seq<char>, Seq<char>)> {
    match mode {
        AppMode::Searching => seq![
            ("esc"@, "cancel"@),
            ("enter"@, "apply"@),
            ("type"@, "filter"@),
        ],
        AppMode::SortMenu { .. } => seq![
            ("↑↓"@, "pick"@),
            ("enter"@, "apply"@),
            ("s"@, "toggle"@),
            ("esc"@, "close"@),
        ],
        _ => seq![
            ("↑↓"@, "navigate"@),
            ("space"@, "select"@),
            ("a"@, "all"@),
            ("i"@, "invert"@),
            ("/"@, "search"@),
            ("s"@, "sort"@),
            ("d"@, "delete focused"@),
            ("r"@, "rescan"@),
            ("?"@, "help"@),
            ("q"@, "quit"@),
        ],
    }
}

/// The line below all others: what the keys do, and what was cleaned.
pub open spec fn footer_line(state: AppView) -> Seq<SpanView> {
    let hints = key_hints(hint_pairs(state.mode));
    match state.cleaned() {
        Some((count, bytes)) => hints + seq![
            raw("    "@),
            styled(
                decimal(count as nat) + " cleaned · "@ + size_text(bytes as nat) + " freed"@,
                fg_style(Color::TextMuted),
            ),
        ],
        None => hints,
    }
}

/// What is drawn below all else.
pub open spec fn footer_drawing(state: AppView, area: Rect) -> DrawingView {
    DrawingView {
        area,
        widget: WidgetView::Paragraph(
            simple_paragraph(
                TextView::Lines(seq![LineView::Spans(footer_line(state))]),
                bg_style(Color::Background),
            ),
        ),
    }
}

/// Draws the line below all others.
pub fn render_footer(area: Rect, app: &App) -> (result: Drawing)
    requires
        app@.wf(),
    ensures
        result@ == footer_drawing(app@, area),
{
    let pairs = match app.mode {
        AppMode::Searching => vec![("esc", "cancel"), ("enter", "apply"), ("type", "filter")],
        AppMode::SortMenu { .. } => vec![
            ("↑↓", "pick"),
            ("enter", "apply"),
            ("s", "toggle"),
            ("esc", "close"),
        ],
        _ => vec![
            ("↑↓", "navigate"),
            ("space", "select"),
            ("a", "all"),
            ("i", "invert"),
            ("/", "search"),
            ("s", "sort"),
            ("d", "delete focused"),
            ("r", "rescan"),
            ("?", "help"),
            ("q", "quit"),
        ],
    };
    assert(pair_views(pairs@) =~= hint_pairs(app.mode));
    let mut spans = footer_spans(&pairs);
    let ghost hints = span_views(spans@);
    if let Some((count, bytes)) = app.cleaned_session_summary() {
        let gap = Span::raw("    ".to_owned());
        let cleaned = Span::styled(
            decimal_text(count as u128).concat(" cleaned · ").concat(
                format_bytes(bytes).as_str(),
            ).concat(" freed"),
            Style::fg(Color::TextMuted),
        );
        spans.push(gap);
        spans.push(cleaned);
        assert(span_views(spans@) =~= hints + seq![gap@, cleaned@]);
    }
    Drawing {
        area,
        widget: Widget::Paragraph(
            Paragraph {
                text: Text::of(Line::Spans(spans)),
                style: Style::bg(Color::Background),
                alignment: Alignment::Left,
                wrap: false,
                block: None,
            },
        ),
    }
}

/// What the rows of the screen ask for, from the header to the footer.
pub open spec fn screen_rows() -> Seq<Constraint> {
    seq![
        Constraint::Length(1),
        Constraint::Length(5),
        Constraint::Length(3),
        Constraint::Min(8),
        Constraint::Length(1),
    ]
}

/// The rows of a screen that is large enough for all of them: the list takes what the others
/// leave.
pub open spec fn row_areas(inner: Rect) -> Seq<Rect> {
    let height = extent_of(Direction::Vertical, inner);
    seq![
        strip(Direction::Vertical, inner, 0, 1),
        strip(Direction::Vertical, inner, 1, 6),
        strip(Direction::Vertical, inner, 6, 9),
        strip(Direction::Vertical, inner, 9, height - 1),
        strip(Direction::Vertical, inner, height - 1, height),
    ]
}

proof fn screen_rows_ask_for_cells()
    ensures
        cells(screen_rows()) == Some(18nat),
{
    let all = screen_rows();
    reveal_with_fuel(cells, 6);
    assert(all.drop_last().drop_last().drop_last().drop_last().drop_last() =~= Seq::empty());
}

proof fn list_takes_the_rest(inner: Rect, parts: Seq<Rect>)
    requires
        divides(Direction::Vertical, screen_rows(), inner, parts),
        extent_of(Direction::Vertical, inner) >= 18,
    ensures
        parts == row_areas(inner),
{
    let all = screen_rows();
    let height = extent_of(Direction::Vertical, inner);
    assert(all.take(5) =~= all);
    assert(all.take(5).drop_last() =~= all.take(4));
    assert(all.take(4).drop_last() =~= all.take(3));
    assert(all.take(3).drop_last() =~= all.take(2));
    assert(all.take(2).drop_last() =~= all.take(1));
    assert(all.take(1).drop_last() =~= all.take(0));
    assert(cells(all.take(0)) == Some(0nat));
    assert(cells(all.take(1)) == Some(1nat));
    assert(cells(all.take(2)) == Some(6nat));
    assert(cells(all.take(3)) == Some(9nat));
    assert(cells(all.take(4)) == Some(17nat));
    assert(cells(all) == Some(18nat));
    assert(only_filler(all, 3));
    assert(filled_start(all, 3, height, 3) == 9);
    assert(filled_start(all, 3, height, 4) == height - 1);
    assert(filled_start(all, 3, height, 5) == height);
    assert(parts =~= row_areas(inner));
}

/// Whether the inside of the screen was divided into its rows, which make it up from top to
/// bottom. On a screen too small for all of them, the list gets its eight rows first, and no
/// other row of the screen gets more than on a large one.
pub open spec fn divides_screen(inner: Rect, rows: Seq<Rect>) -> bool {
    let height = extent_of(Direction::Vertical, inner);
    &&& divides(Direction::Vertical, screen_rows(), inner, rows)
    &&& fills(Direction::Vertical, inner, rows)
    &&& height >= 18 ==> rows == row_areas(inner)
    &&& height < 18 ==> {
        &&& rows[0].height <= 1
        &&& rows[1].height <= 5
        &&& rows[2].height <= 3
        &&& rows[3].height == if height < 8 {
            height
        } else {
            8
        }
        &&& rows[4].height <= 1
    }
}

/// Divides the inside of the screen into its rows.
pub fn divide_screen(inner: Rect) -> (result: Vec<Rect>)
    ensures
        divides_screen(inner, result@),
{
    let rows = vec![
        Constraint::Length(1),
        Constraint::Length(5),
        Constraint::Length(3),
        Constraint::Min(8),
        Constraint::Length(1),
    ];
    assert(rows@ =~= screen_rows());
    let result = split(Direction::Vertical, &rows, inner);
    proof {
        screen_rows_ask_for_cells();
        assert(only_filler(screen_rows(), 3));
        if extent_of(Direction::Vertical, inner) < 18 {
            let extent = extent_of(Direction::Vertical, inner);
            assert(filler_comes_first(
                Direction::Vertical,
                screen_rows(),
                3,
                extent,
                result@,
            ));
            assert(screen_rows()[0] == Constraint::Length(1));
            assert(screen_rows()[1] == Constraint::Length(5));
            assert(screen_rows()[2] == Constraint::Length(3));
            assert(screen_rows()[4] == Constraint::Length(1));
        }
        if extent_of(Direction::Vertical, inner) >= 18 {
            list_takes_the_rest(inner, result@);
        }
    }
    result
}

/// The title of the screen: the name of the program, the root, and what a scan has found.
pub open spec fn title_spans(state: AppView) -> Seq<SpanView> {
    seq![
        styled(" purgee "@, bold_style(Color::TextPrimary)),
        styled(path_text(state.root), fg_style(Color::TextSecondary)),
        styled(
            "  scanned "@ + decimal(state.scan_summary.discovered as nat) + " in "@
                + duration_text(state.scan_summary.elapsed) + " "@,
            fg_style(Color::TextMuted),
        ),
    ]
}

/// The frame around the screen, with the background behind it.
pub open spec fn frame_drawings(state: AppView, screen: Rect) -> Seq<DrawingView> {
    seq![
        DrawingView { area: screen, widget: WidgetView::Fill(bg_style(Color::Background)) },
        DrawingView {
            area: screen,
            widget: WidgetView::Block(
                BlockView {
                    title: Some(LineView::Spans(title_spans(state))),
                    style: both_style(Color::Border, Color::Background),
                },
            ),
        },
    ]
}

/// Draws the frame around the screen, with the background behind it.
fn render_frame(screen: Rect, app: &App) -> (result: Vec<Drawing>)
    ensures
        drawing_views(result@) == frame_drawings(app@, screen),
{
    let background = Drawing { area: screen, widget: Widget::Fill(Style::bg(Color::Background)) };
    let name = Span::styled(" purgee ".to_owned(), Style::bold(Color::TextPrimary));
    let root = Span::styled(app.root.to_text(), Style::fg(Color::TextSecondary));
    let scanned = Span::styled(
        "  scanned ".to_owned().concat(
            decimal_text(app.scan_summary.discovered as u128).as_str(),
        ).concat(" in ").concat(format_duration(app.scan_summary.elapsed).as_str()).concat(" "),
        Style::fg(Color::TextMuted),
    );
    let spans = vec![name, root, scanned];
    assert(span_views(spans@) =~= seq![name@, root@, scanned@]);
    let outer = Drawing {
        area: screen,
        widget: Widget::Block(
            Block {
                title: Some(Line::Spans(spans)),
                style: Style::both(Color::Border, Color::Background),
            },
        ),
    };
    let result = vec![background, outer];
    assert(drawing_views(result@) =~= seq![background@, outer@]);
    result
}

/// The window above the rest of the screen, where there is one.
pub open spec fn popup(state: AppView, screen: Rect) -> Seq<DrawingView> {
    match state.mode {
        AppMode::SortMenu { index } => sort_menu_drawings(state, index as int, screen),
        AppMode::Help => help_drawings(screen),
        _ => Seq::empty(),
    }
}

/// All that is drawn, in its order, on a screen whose inside was divided into rows.
pub open spec fn screen_drawings(
    state: AppView,
    screen: Rect,
    rows: Seq<Rect>,
    now: Timestamp,
) -> Seq<DrawingView> {
    frame_drawings(state, screen).push(header_drawing(state, rows[0])) + stats_drawings(
        state,
        rows[1],
    ) + search_drawings(state, rows[2]).push(list_drawing(state, rows[3], now)).push(
        footer_drawing(state, rows[4]),
    ) + popup(state, screen)
}

/// Draws all on a screen whose inside was divided into rows.
pub fn render_rows(
    screen: Rect,
    rows: &Vec<Rect>,
    app: &mut App,
    now: Timestamp,
) -> (result: Vec<Drawing>)
    requires
        old(app)@.wf(),
        rows@.len() == 5,
    ensures
        drawing_views(result@) == screen_drawings(old(app)@, screen, rows@, now),
        final(app)@ == if old(app)@.entries.len() > 0 {
            old(app)@.synced()
        } else {
            old(app)@
        },
        final(app)@.wf(),
{
    let ghost state = app@;
    let mut result = render_frame(screen, app);
    let header = render_header(rows[0], app);
    result.push(header);
    let ghost first = drawing_views(result@);
    assert(first =~= frame_drawings(state, screen).push(header@));
    let mut stats = render_stats(rows[1], app);
    let mut search = render_search(rows[2], app);
    let ghost searched = drawing_views(search@);
    let footer = render_footer(rows[4], app);
    let mut above: Vec<Drawing> = match app.mode {
        AppMode::SortMenu { index } => render_sort_menu(screen, app, index),
        AppMode::Help => render_help(screen),
        _ => Vec::new(),
    };
    assert(drawing_views(above@) =~= popup(state, screen));
    let list = render_table_or_state(rows[3], app, now);
    search.push(list);
    search.push(footer);
    let ghost second = drawing_views(stats@);
    let ghost third = drawing_views(search@);
    let ghost last = drawing_views(above@);
    assert(third =~= searched.push(list@).push(footer@));
    result.append(&mut stats);
    result.append(&mut search);
    result.append(&mut above);
    assert(drawing_views(result@) =~= first + second + third + last);
    result
}

/// Whether steps of drawing show a state on a screen: all that is to be drawn is drawn, on rows
/// into which the inside of the screen is divided.
pub open spec fn shows(
    state: AppView,
    screen: Rect,
    now: Timestamp,
    drawings: Seq<DrawingView>,
) -> bool {
    exists|rows: Seq<Rect>|
        {
            &&& #[trigger] divides_screen(inside_borders(screen), rows)
            &&& drawings == screen_drawings(state, screen, rows, now)
        }
}

/// Draws the state on a screen.
pub fn render(screen: Rect, app: &mut App, now: Timestamp) -> (result: Vec<Drawing>)
    requires
        old(app)@.wf(),
    ensures
        shows(old(app)@, screen, now, drawing_views(result@)),
        extent_of(Direction::Vertical, inside_borders(screen)) >= 18 ==> drawing_views(result@)
            == screen_drawings(old(app)@, screen, row_areas(inside_borders(screen)), now),
        final(app)@ == if old(app)@.entries.len() > 0 {
            old(app)@.synced()
        } else {
            old(app)@
        },
        final(app)@.wf(),
{
    let rows = divide_screen(bordered_inner(screen));
    render_rows(screen, &rows, app, now)
}

} // verus!
