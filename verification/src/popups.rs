//! The windows that lie above the rest of the screen: the menu of fields and the help.

use crate::app::App;
use crate::draw::{
    drawing_views, Alignment, Block, BlockView, Drawing, DrawingView, Paragraph, ParagraphView,
    Widget, WidgetView,
};
use crate::entry::{sort_field_label, sort_fields, sort_order_symbol, SortField, SORT_FIELD_COUNT};
use crate::layout::{centered_rect, middle_of, Rect};
use crate::model::AppView;
use crate::style::{
    bg_style, bold_style, both_style, fg_style, line_of, line_views, plain_style, styled, Color,
    Line, LineView, Span, Style, Text, TextView,
};
use crate::text::{pad_right, padded_right};
use vstd::prelude::*;

verus! {

/// A window with a title, above what was drawn before.
pub open spec fn popup_drawings(
    area: Rect,
    title: Seq<char>,
    lines: Seq<LineView>,
    style: Style,
) -> Seq<DrawingView> {
    seq![
        DrawingView { area, widget: WidgetView::Clear },
        DrawingView {
            area,
            widget: WidgetView::Paragraph(
                ParagraphView {
                    text: TextView::Lines(lines),
                    style,
                    alignment: Alignment::Left,
                    wrap: false,
                    block: Some(
                        BlockView { title: Some(LineView::Plain(title)), style: plain_style() },
                    ),
                },
            ),
        },
    ]
}

/// Draws a window with a title.
fn draw_popup(area: Rect, title: &str, lines: Vec<Line>, style: Style) -> (result: Vec<Drawing>)
    ensures
        drawing_views(result@) == popup_drawings(area, title@, line_views(lines@), style),
{
    let cleared = Drawing { area, widget: Widget::Clear };
    let content = Drawing {
        area,
        widget: Widget::Paragraph(
            Paragraph {
                text: Text::Lines(lines),
                style,
                alignment: Alignment::Left,
                wrap: false,
                block: Some(
                    Block { title: Some(Line::Plain(title.to_owned())), style: Style::plain() },
                ),
            },
        ),
    };
    let result = vec![cleared, content];
    assert(drawing_views(result@) =~= seq![cleared@, content@]);
    result
}

/// One line of the menu of fields: a mark on the chosen field, and an arrow behind the field that
/// the list is sorted by.
pub open spec fn menu_line(state: AppView, index: int, row: int) -> LineView {
    let field = sort_fields()[row];
    let marker = if row == index {
        "▸"@
    } else {
        " "@
    };
    let suffix = if field == state.sort_field {
        sort_order_symbol(state.sort_order)
    } else {
        " "@
    };
    line_of(
        styled(
            marker + " "@ + padded_right(sort_field_label(field), 10) + " "@ + suffix,
            if row == index {
                bold_style(Color::AccentPrimary)
            } else {
                fg_style(Color::TextPrimary)
            },
        ),
    )
}

/// The lines of the menu of fields.
pub open spec fn menu_lines(state: AppView, index: int) -> Seq<LineView> {
    Seq::new(sort_fields().len(), |row: int| menu_line(state, index, row))
}

/// The menu of fields.
pub open spec fn sort_menu_drawings(state: AppView, index: int, screen: Rect) -> Seq<DrawingView> {
    popup_drawings(
        middle_of(34, 34, screen),
        " Sort by "@,
        menu_lines(state, index),
        bg_style(Color::Surface),
    )
}

/// Draws the menu of fields, with the mark on the field at `index`.
pub fn render_sort_menu(screen: Rect, app: &App, index: usize) -> (result: Vec<Drawing>)
    ensures
        drawing_views(result@) == sort_menu_drawings(app@, index as int, screen),
{
    let area = centered_rect(34, 34, screen);
    let ghost all = menu_lines(app@, index as int);
    let mut lines: Vec<Line> = Vec::new();
    let mut row: usize = 0;
    assert(line_views(lines@) =~= all.take(0));
    while row < SORT_FIELD_COUNT
        invariant
            row <= SORT_FIELD_COUNT,
            all == menu_lines(app@, index as int),
            line_views(lines@) == all.take(row as int),
        decreases SORT_FIELD_COUNT - row,
    {
        let ghost before = line_views(lines@);
        let field = SortField::at(row);
        let marker = if row == index {
            "▸"
        } else {
            " "
        };
        let suffix = if field == app.sort_field {
            app.sort_order.symbol()
        } else {
            " "
        };
        let style = if row == index {
            Style::bold(Color::AccentPrimary)
        } else {
            Style::fg(Color::TextPrimary)
        };
        let text = marker.to_owned().concat(" ").concat(
            pad_right(field.label(), 10).as_str(),
        ).concat(" ").concat(suffix);
        let line = Line::of(Span::styled(text, style));
        lines.push(line);
        row += 1;
        proof {
            assert(line@ == all[row - 1]);
            assert(line_views(lines@) =~= before.push(line@));
            assert(all.take(row as int) =~= all.take(row - 1).push(all[row - 1]));
        }
    }
    assert(all.take(all.len() as int) =~= all);
    draw_popup(area, " Sort by ", lines, Style::bg(Color::Surface))
}

/// The lines of the help.
pub open spec fn help_lines() -> Seq<LineView> {
    seq![
        LineView::Plain("↑ ↓ / j k   Move cursor"@),
        LineView::Plain("g / G       Jump to top / bottom"@),
        LineView::Plain("space       Toggle selection"@),
        LineView::Plain("a           Toggle all filtered rows"@),
        LineView::Plain("i           Invert filtered selection"@),
        LineView::Plain("/           Search"@),
        LineView::Plain("s           Sort"@),
        LineView::Plain("d           Delete focused row immediately"@),
        LineView::Plain("r           Rescan"@),
        LineView::Plain("?           Toggle help"@),
        LineView::Plain("q / ctrl-c  Quit"@),
    ]
}

/// The help.
pub open spec fn help_drawings(screen: Rect) -> Seq<DrawingView> {
    popup_drawings(
        middle_of(74, 72, screen),
        " Help "@,
        help_lines(),
        both_style(Color::TextPrimary, Color::Surface),
    )
}

/// Draws the help.
pub fn render_help(screen: Rect) -> (result: Vec<Drawing>)
    ensures
        drawing_views(result@) == help_drawings(screen),
{
    let area = centered_rect(74, 72, screen);
    let lines = vec![
        Line::Plain("↑ ↓ / j k   Move cursor".to_owned()),
        Line::Plain("g / G       Jump to top / bottom".to_owned()),
        Line::Plain("space       Toggle selection".to_owned()),
        Line::Plain("a           Toggle all filtered rows".to_owned()),
        Line::Plain("i           Invert filtered selection".to_owned()),
        Line::Plain("/           Search".to_owned()),
        Line::Plain("s           Sort".to_owned()),
        Line::Plain("d           Delete focused row immediately".to_owned()),
        Line::Plain("r           Rescan".to_owned()),
        Line::Plain("?           Toggle help".to_owned()),
        Line::Plain("q / ctrl-c  Quit".to_owned()),
    ];
    assert(line_views(lines@) =~= help_lines());
    draw_popup(area, " Help ", lines, Style::both(Color::TextPrimary, Color::Surface))
}

} // verus!
