//! How what is shown looks, and where on the screen it lies.

use crate::draw::{Alignment, DrawingView, WidgetView};
use crate::entry::{EntryView, StatusView};
use crate::layout::{inside_borders, middle_of, share, Rect};
use crate::model::{AppMode, AppView};
use crate::pieces::{compact_path_text, highlighted, key_hints};
use crate::popups::{help_drawings, sort_menu_drawings};
use crate::render::{
    card_areas, footer_drawing, footer_line, header_drawing, largest_remaining, largest_text,
    row_areas, search_drawings, stats_drawings,
};
use crate::screen_text_laws::{cell_line, told_of};
use crate::style::{
    bg_style, bold_style, both_style, color_parts, fg_style, line_of, plain_style, raw, spans_text,
    styled, Color, LineView, SpanView, Style,
};
use crate::table::{empty_state_drawing, scan_state_drawing, table_rows, table_view};
use crate::time::Timestamp;
use vstd::prelude::*;

verus! {

/// Each colour has its own red, green and blue parts.
pub proof fn colours_have_their_parts(color: Color)
    ensures
        color_parts(color) == match color {
            Color::Background => (22u8, 22u8, 30u8),
            Color::Surface => (30u8, 30u8, 40u8),
            Color::TextPrimary => (234u8, 234u8, 242u8),
            Color::TextSecondary => (177u8, 177u8, 192u8),
            Color::TextMuted => (122u8, 122u8, 137u8),
            Color::Border => (50u8, 50u8, 65u8),
            Color::AccentPrimary => (110u8, 168u8, 254u8),
            Color::AccentSuccess => (116u8, 198u8, 157u8),
            Color::AccentWarning => (255u8, 183u8, 77u8),
            Color::AccentError => (255u8, 107u8, 107u8),
            Color::ActiveRow => (39u8, 54u8, 79u8),
        },
{
}

/// No two colours look the same.
pub proof fn colours_differ(left: Color, right: Color)
    ensures
        color_parts(left) == color_parts(right) ==> left == right,
{
}

/// A style changes what it names and nothing else, and a span or a line keeps its text.
pub proof fn styles_change_what_they_name(fg: Color, bg: Color, text: Seq<char>, style: Style)
    ensures
        plain_style() == (Style { fg: None, bg: None, bold: false }),
        fg_style(fg) == (Style { fg: Some(fg), bg: None, bold: false }),
        bold_style(fg) == (Style { fg: Some(fg), bg: None, bold: true }),
        bg_style(bg) == (Style { fg: None, bg: Some(bg), bold: false }),
        both_style(fg, bg) == (Style { fg: Some(fg), bg: Some(bg), bold: false }),
        styled(text, style) == (SpanView { text, style }),
        raw(text) == (SpanView { text, style: Style { fg: None, bg: None, bold: false } }),
        line_of(SpanView { text, style }).text() == text,
        LineView::Plain(text).text() == text,
{
    let span = SpanView { text, style };
    assert(seq![span].drop_last() =~= Seq::<SpanView>::empty());
    assert(spans_text(seq![span]) == spans_text(seq![span].drop_last()) + text);
    assert(line_of(span).text() =~= text);
}

/// One more span adds its text behind the others.
pub proof fn spans_stand_behind_one_another(spans: Seq<SpanView>, span: SpanView)
    ensures
        LineView::Spans(spans.push(span)).text() == LineView::Spans(spans).text() + span.text,
        LineView::Spans(Seq::empty()).text().len() == 0,
{
    assert(spans.push(span).drop_last() =~= spans);
}

/// Whether a paragraph looks a certain way: its style, on which side its lines begin, and whether
/// long lines go on in the next one.
pub open spec fn looks(
    drawing: DrawingView,
    fg: Option<Color>,
    bg: Option<Color>,
    alignment: Alignment,
    wrap: bool,
) -> bool {
    drawing.widget matches WidgetView::Paragraph(paragraph) && paragraph.style == (Style {
        fg,
        bg,
        bold: false,
    }) && paragraph.alignment == alignment && paragraph.wrap == wrap
}

/// Whether a paragraph has no frame of its own.
pub open spec fn is_frameless(drawing: DrawingView) -> bool {
    drawing.widget matches WidgetView::Paragraph(paragraph) && paragraph.block is None
}

/// Whether a paragraph stands in a frame without a title.
pub open spec fn is_framed(drawing: DrawingView) -> bool {
    drawing.widget matches WidgetView::Paragraph(paragraph) && paragraph.block matches Some(block)
        && block.title is None && block.style == (Style {
        fg: Some(Color::Border),
        bg: None,
        bold: false,
    })
}

/// Whether a frame looks a certain way.
pub open spec fn frame_looks(drawing: DrawingView, fg: Color, bg: Color) -> bool {
    drawing.widget matches WidgetView::Block(block) && block.style == (Style {
        fg: Some(fg),
        bg: Some(bg),
        bold: false,
    })
}

/// The header, the cards, the line for the search and the footer each have their colours; the
/// frame of the search lights up while the query is typed, and the invitation to type is muted.
pub proof fn lines_have_their_colours(state: AppView, area: Rect)
    ensures
        looks(
            header_drawing(state, area),
            Some(Color::TextSecondary),
            Some(Color::Background),
            Alignment::Left,
            false,
        ),
        is_frameless(header_drawing(state, area)),
        looks(footer_drawing(state, area), None, Some(Color::Background), Alignment::Left, false),
        is_frameless(footer_drawing(state, area)),
        ({
            let cards = stats_drawings(state, area);
            &&& frame_looks(cards[0], Color::Border, Color::Surface)
            &&& frame_looks(cards[2], Color::Border, Color::Surface)
            &&& frame_looks(cards[4], Color::Border, Color::Surface)
            &&& looks(cards[1], None, None, Alignment::Left, true) && is_frameless(cards[1])
            &&& looks(cards[3], None, None, Alignment::Left, true) && is_frameless(cards[3])
            &&& looks(cards[5], None, None, Alignment::Left, true) && is_frameless(cards[5])
        }),
        ({
            let search = search_drawings(state, area);
            let typing = state.mode == AppMode::Searching;
            &&& frame_looks(
                search[0],
                if typing {
                    Color::AccentPrimary
                } else {
                    Color::Border
                },
                Color::Background,
            )
            &&& search[0].widget matches WidgetView::Block(block) && block.title is None
            &&& looks(
                search[1],
                Some(
                    if typing || state.search_query.len() > 0 {
                        Color::TextPrimary
                    } else {
                        Color::TextMuted
                    },
                ),
                Some(Color::Background),
                Alignment::Left,
                false,
            )
            &&& is_frameless(search[1])
        }),
{
}

/// What stands in the place of the table lies in the middle of a frame.
pub proof fn notices_lie_in_the_middle(state: AppView, area: Rect)
    ensures
        looks(scan_state_drawing(state, area), None, None, Alignment::Center, false),
        is_framed(scan_state_drawing(state, area)),
        looks(empty_state_drawing(area), None, None, Alignment::Center, false),
        is_framed(empty_state_drawing(area)),
{
}

/// Names and paths in the table are marked where they hold the query; the cells have no style of
/// their own, but for the size; the names of the columns are bold.
pub proof fn rows_mark_what_was_found(state: AppView, now: Timestamp, row: int)
    requires
        0 <= row < state.filtered_indices.len(),
    ensures
        ({
            let entry = state.entries[state.filtered_indices[row] as int];
            let shown = table_rows(state, now)[row];
            let plain = Style { fg: None, bg: None, bold: false };
            let table = table_view(state, now);
            &&& cell_line(shown, 1) == highlighted(
                entry.display_name + told_of(entry.delete_status),
                state.search_query,
            )
            &&& cell_line(shown, 4) == highlighted(
                compact_path_text(entry.relative_path),
                state.search_query,
            )
            &&& shown.cells[0].style == plain && shown.cells[1].style == plain
            &&& shown.cells[3].style == plain && shown.cells[4].style == plain
            &&& table.header.style == (Style {
                fg: Some(Color::TextMuted),
                bg: None,
                bold: true,
            })
            &&& table.block.title is None
            &&& table.block.style == (Style {
                fg: Some(Color::Border),
                bg: Some(Color::Background),
                bold: false,
            })
        }),
{
    let entry = state.entries[state.filtered_indices[row] as int];
    reveal_strlit("");
    assert(crate::table::status_suffix(entry.delete_status) =~= told_of(entry.delete_status));
}

/// Keys are bold in the colour of accents, and what they do is muted.
pub proof fn hints_have_their_colours(
    pairs: Seq<(Seq<char>, Seq<char>)>,
    key: Seq<char>,
    action: Seq<char>,
)
    ensures
        ({
            let hints = key_hints(pairs.push((key, action)));
            let length = hints.len() as int;
            let plain = Style { fg: None, bg: None, bold: false };
            &&& length >= 3
            &&& length == if pairs.len() == 0 {
                3
            } else {
                key_hints(pairs).len() + 4
            }
            &&& pairs.len() > 0 ==> hints.take(length - 4) == key_hints(pairs) && hints[length - 4]
                == (SpanView { text: "  "@, style: plain })
            &&& hints[length - 3] == (SpanView {
                text: key,
                style: Style { fg: Some(Color::AccentPrimary), bg: None, bold: true },
            })
            &&& hints[length - 2] == (SpanView { text: " "@, style: plain })
            &&& hints[length - 1] == (SpanView {
                text: action,
                style: Style { fg: Some(Color::TextMuted), bg: None, bold: false },
            })
        }),
{
    let more = pairs.push((key, action));
    assert(more.drop_last() =~= pairs);
    let hints = key_hints(more);
    if pairs.len() > 0 {
        assert(hints.take(hints.len() - 4) =~= key_hints(pairs));
    }
}

/// What was cleaned is told in muted type.
pub proof fn cleaned_is_muted(state: AppView)
    requires
        state.wf(),
        state.deleted_entries().len() > 0,
    ensures
        footer_line(state).last().style == (Style {
            fg: Some(Color::TextMuted),
            bg: None,
            bold: false,
        }),
{
}

/// Where no directory is left, none is told as the largest.
pub proof fn without_directories_none_is_largest(entries: Seq<EntryView>)
    requires
        forall|index: int|
            0 <= index < entries.len() ==> (#[trigger] entries[index]).delete_status
                == StatusView::Deleted,
    ensures
        largest_text(entries) == "No target folders"@,
{
    nothing_is_largest(entries);
}

proof fn nothing_is_largest(entries: Seq<EntryView>)
    requires
        forall|index: int|
            0 <= index < entries.len() ==> (#[trigger] entries[index]).delete_status
                == StatusView::Deleted,
    ensures
        largest_remaining(entries) is None,
    decreases entries.len(),
{
    if entries.len() > 0 {
        assert(entries[entries.len() - 1] == entries.last());
        let shorter = entries.drop_last();
        assert forall|index: int| 0 <= index < shorter.len() implies (
        #[trigger] shorter[index]).delete_status == StatusView::Deleted by {
            assert(entries[index] == shorter[index]);
        }
        nothing_is_largest(shorter);
    }
}

/// Whether a distance is a share of an extent in hundredths, to the nearest whole cell.
pub open spec fn is_share(distance: int, extent: int, hundredths: int) -> bool {
    -50 <= extent * hundredths - 100 * distance <= 50
}

proof fn shares_are_nearest(extent: int, hundredths: nat)
    requires
        extent >= 0,
        hundredths <= 100,
    ensures
        is_share(share(extent, hundredths), extent, hundredths as int),
        0 <= share(extent, hundredths) <= extent,
{
    assert(0 <= extent * hundredths <= extent * 100) by (nonlinear_arith)
        requires
            extent >= 0,
            hundredths <= 100,
    ;
}

/// Whether an area lies in the middle of a screen, with a share of its width and one of its
/// height, and the same share left free on either side.
pub open spec fn lies_in_the_middle(
    area: Rect,
    screen: Rect,
    of_width: int,
    of_height: int,
) -> bool {
    let width = screen.width as int;
    let height = screen.height as int;
    let beside = (100 - of_width) / 2;
    let above = (100 - of_height) / 2;
    &&& is_share(area.x - screen.x, width, beside)
    &&& is_share(area.x + area.width - screen.x, width, beside + of_width)
    &&& is_share(area.y - screen.y, height, above)
    &&& is_share(area.y + area.height - screen.y, height, above + of_height)
}

/// An area in the middle of another one lies in its middle.
pub proof fn middles_lie_in_the_middle(of_width: int, of_height: int, screen: Rect)
    requires
        0 <= of_width <= 100,
        0 <= of_height <= 100,
        screen.x + screen.width <= u16::MAX,
        screen.y + screen.height <= u16::MAX,
    ensures
        lies_in_the_middle(middle_of(of_width, of_height, screen), screen, of_width, of_height),
{
    let beside = ((100 - of_width) / 2) as nat;
    let above = ((100 - of_height) / 2) as nat;
    let until_x = ((100 + of_width) / 2) as nat;
    let until_y = ((100 + of_height) / 2) as nat;
    assert(until_x == beside + of_width);
    assert(until_y == above + of_height);
    let width = screen.width as int;
    let height = screen.height as int;
    shares_are_nearest(width, beside);
    shares_are_nearest(width, until_x);
    shares_are_nearest(height, above);
    shares_are_nearest(height, until_y);
    assert(width * beside <= width * until_x) by (nonlinear_arith)
        requires
            width >= 0,
            beside <= until_x,
    ;
    assert(height * above <= height * until_y) by (nonlinear_arith)
        requires
            height >= 0,
            above <= until_y,
    ;
}

/// The menu of fields takes up about a third of the screen each way, the help about three
/// quarters, and both lie in its middle, above a cleared place of the same size.
pub proof fn windows_lie_in_the_middle(state: AppView, index: int, screen: Rect)
    requires
        screen.x + screen.width <= u16::MAX,
        screen.y + screen.height <= u16::MAX,
    ensures
        ({
            let menu = sort_menu_drawings(state, index, screen);
            let help = help_drawings(screen);
            &&& menu.len() == 2 && menu[0].widget is Clear && menu[0].area == menu[1].area
            &&& lies_in_the_middle(menu[1].area, screen, 34, 34)
            &&& looks(menu[1], None, Some(Color::Surface), Alignment::Left, false)
            &&& has_window_title(menu[1], " Sort by "@)
            &&& help.len() == 2 && help[0].widget is Clear && help[0].area == help[1].area
            &&& lies_in_the_middle(help[1].area, screen, 74, 72)
            &&& looks(
                help[1],
                Some(Color::TextPrimary),
                Some(Color::Surface),
                Alignment::Left,
                false,
            )
            &&& has_window_title(help[1], " Help "@)
        }),
{
    middles_lie_in_the_middle(34, 34, screen);
    middles_lie_in_the_middle(74, 72, screen);
}

/// Whether a paragraph stands in a frame with a title.
pub open spec fn has_window_title(drawing: DrawingView, title: Seq<char>) -> bool {
    drawing.widget matches WidgetView::Paragraph(paragraph) && paragraph.block matches Some(block)
        && block.title == Some(LineView::Plain(title)) && block.style == (Style {
        fg: None,
        bg: None,
        bold: false,
    })
}

/// The three cards lie side by side: the first two on about twenty-eight hundredths of the width
/// each, the last one on the rest.
pub proof fn cards_lie_side_by_side(area: Rect)
    requires
        area.x + area.width <= u16::MAX,
        area.y + area.height <= u16::MAX,
    ensures
        ({
            let cards = card_areas(area);
            let width = area.width as int;
            &&& cards.len() == 3
            &&& cards[0].x == area.x
            &&& is_share(cards[0].width as int, width, 28)
            &&& cards[1].x == cards[0].x + cards[0].width
            &&& is_share(cards[1].x + cards[1].width - area.x, width, 56)
            &&& cards[2].x == cards[1].x + cards[1].width
            &&& cards[2].x + cards[2].width == area.x + area.width
            &&& forall|index: int|
                0 <= index < 3 ==> (#[trigger] cards[index]).y == area.y && cards[index].height
                    == area.height
        }),
{
    let width = area.width as int;
    shares_are_nearest(width, 28);
    shares_are_nearest(width, 56);
    assert(width * 28 <= width * 56) by (nonlinear_arith)
        requires
            width >= 0,
    ;
}

/// Where there is room, the header is one row high, the cards five, the line for the search three
/// and the footer one; the list gets all that is left between them.
pub proof fn rows_of_the_screen_are_stacked(inner: Rect)
    requires
        inner.height >= 18,
        inner.y + inner.height <= u16::MAX,
    ensures
        ({
            let rows = row_areas(inner);
            &&& rows.len() == 5
            &&& rows[0].y == inner.y && rows[0].height == 1
            &&& rows[1].y == inner.y + 1 && rows[1].height == 5
            &&& rows[2].y == inner.y + 6 && rows[2].height == 3
            &&& rows[3].y == inner.y + 9 && rows[3].height == inner.height - 10
            &&& rows[4].y == inner.y + inner.height - 1 && rows[4].height == 1
            &&& forall|index: int|
                0 <= index < 5 ==> (#[trigger] rows[index]).x == inner.x && rows[index].width
                    == inner.width
        }),
{
}

/// Borders take one cell on each side.
pub proof fn borders_take_one_cell(area: Rect)
    requires
        area.width >= 2,
        area.height >= 2,
        area.x + area.width <= u16::MAX,
        area.y + area.height <= u16::MAX,
    ensures
        inside_borders(area).x == area.x + 1,
        inside_borders(area).y == area.y + 1,
        inside_borders(area).width == area.width - 2,
        inside_borders(area).height == area.height - 2,
{
}

} // verus!
