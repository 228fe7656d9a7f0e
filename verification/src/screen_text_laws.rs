//! What is told on the screen, and where.

use crate::draw::{DrawingView, RowView, WidgetView};
use crate::entry::{EntryView, SortField, SortOrder, StatusView};
use crate::layout::{inside_borders, Constraint, Rect};
use crate::model::{AppMode, AppView};
use crate::order_laws::counted_size;
use crate::path::{path_text, relative_path_text};
use crate::pieces::{compact_path_text, key_hints, spinner_picture, spinner_pictures};
use crate::popups::{help_drawings, menu_lines};
use crate::render::{
    card_areas, footer_drawing, footer_line, frame_drawings, header_drawing, header_text,
    largest_text, popup, screen_drawings, search_drawings, search_left, search_right,
    stats_drawings, title_spans,
};
use crate::shown_laws::is_blank;
use crate::size::{size_cell_text, size_text};
use crate::style::{
    bg_style, bold_style, both_style, fg_style, plain_style, spans_text, Color, LineView, SpanView,
    Style, TextView,
};
use crate::table::{list_drawing, table_rows};
use crate::text::decimal;
use crate::time::{days_ago_text, days_since, Timestamp};
use crate::totals::{effective_total, original_total};
use vstd::prelude::*;

verus! {

/// The lines of a paragraph that is drawn, where it is made of lines.
pub open spec fn lines_of(drawing: DrawingView) -> Seq<LineView> {
    match drawing.widget {
        WidgetView::Paragraph(paragraph) => match paragraph.text {
            TextView::Lines(lines) => lines,
            TextView::Plain(_) => Seq::empty(),
        },
        _ => Seq::empty(),
    }
}

/// Whether a paragraph of one text is drawn.
pub open spec fn draws_text(drawing: DrawingView, text: Seq<char>) -> bool {
    drawing.widget matches WidgetView::Paragraph(paragraph) && paragraph.text == TextView::Plain(
        text,
    )
}

/// Whether a line is one span with a text.
pub open spec fn is_line(line: LineView, text: Seq<char>, style: Style) -> bool {
    line matches LineView::Spans(spans) && spans.len() == 1 && spans[0].text == text
        && spans[0].style == style
}

/// The header tells what is scanned while a scan runs, how many removals run while some do, and
/// else how many directories there are, how many are left, and how many warnings there were.
pub proof fn header_tells_what_goes_on(state: AppView, area: Rect)
    ensures
        header_drawing(state, area).area == area,
        draws_text(header_drawing(state, area), header_text(state)),
        ({
            let picture = spinner_picture(state.animation_tick as int);
            let text = header_text(state);
            let scanned = decimal(state.entries.len());
            let left = decimal(state.remaining_entries().len());
            let running = state.deleting_entries().len();
            &&& state.mode == AppMode::Scanning && state.scan_summary.current_path is None ==> text
                == picture + "  Scanning "@ + path_text(state.root)
            &&& state.mode == AppMode::Scanning && state.scan_summary.current_path is Some ==> text
                == picture + "  Scanning "@ + relative_path_text(
                state.root,
                state.scan_summary.current_path->0,
            )
            &&& state.mode != AppMode::Scanning && running == 1 ==> text == picture
                + "  Deleting "@ + decimal(1) + " target folder"@ + ""@
            &&& state.mode != AppMode::Scanning && running > 1 ==> text == picture
                + "  Deleting "@ + decimal(running) + " target folder"@ + "s"@
            &&& state.mode != AppMode::Scanning && running == 0 && state.scan_warnings.len() == 0
                ==> text == scanned + " scanned · "@ + left + " remaining"@
            &&& state.mode != AppMode::Scanning && running == 0 && state.scan_warnings.len() > 0
                ==> text == scanned + " scanned · "@ + left + " remaining"@ + " · "@ + decimal(
                state.scan_warnings.len(),
            ) + " scan warnings"@
        }),
{
}

/// The three cards tell what can be freed and from how many directories, what is selected and of
/// how many projects, and which directory is the largest. Each value lies inside the frame of its
/// card.
pub proof fn cards_tell_three_sizes(state: AppView, area: Rect)
    ensures
        ({
            let drawings = stats_drawings(state, area);
            let areas = card_areas(area);
            let selected = state.selected_entries();
            &&& drawings.len() == 6
            &&& drawings[0].area == areas[0] && drawings[1].area == inside_borders(areas[0])
            &&& drawings[2].area == areas[1] && drawings[3].area == inside_borders(areas[1])
            &&& drawings[4].area == areas[2] && drawings[5].area == inside_borders(areas[2])
            &&& lines_of(drawings[1]).len() == 2
            &&& is_line(
                lines_of(drawings[1])[0],
                size_text(state.scan_summary.total_bytes as nat),
                bold_style(Color::TextPrimary),
            )
            &&& is_line(
                lines_of(drawings[1])[1],
                "across "@ + decimal(state.remaining_entries().len()) + " remaining"@,
                fg_style(Color::TextMuted),
            )
            &&& lines_of(drawings[3]).len() == 2
            &&& is_line(
                lines_of(drawings[3])[0],
                size_text(effective_total(selected)),
                bold_style(Color::AccentWarning),
            )
            &&& is_line(
                lines_of(drawings[3])[1],
                "in "@ + decimal(selected.len()) + " projects"@,
                fg_style(Color::TextMuted),
            )
            &&& lines_of(drawings[5]).len() == 2
            &&& is_line(
                lines_of(drawings[5])[0],
                largest_text(state.entries),
                bold_style(Color::TextPrimary),
            )
            &&& is_line(
                lines_of(drawings[5])[1],
                "largest remaining target"@,
                fg_style(Color::TextMuted),
            )
            &&& has_title(drawings[0], "Reclaimable"@)
            &&& has_title(drawings[2], "Selected"@)
            &&& has_title(drawings[4], "Largest"@)
        }),
{
}

/// Whether a frame with a title is drawn.
pub open spec fn has_title(drawing: DrawingView, title: Seq<char>) -> bool {
    drawing.widget matches WidgetView::Block(block) && block.title == Some(LineView::Plain(title))
}

/// The largest directory is told by its name and its size.
pub proof fn largest_is_told_by_name_and_size(
    before: Seq<EntryView>,
    largest: EntryView,
    behind: Seq<EntryView>,
)
    requires
        largest.delete_status != StatusView::Deleted,
        forall|index: int|
            0 <= index < before.len() ==> (#[trigger] before[index]).delete_status
                == StatusView::Deleted || before[index].size_bytes <= largest.size_bytes,
        forall|index: int|
            0 <= index < behind.len() ==> (#[trigger] behind[index]).delete_status
                == StatusView::Deleted || behind[index].size_bytes < largest.size_bytes,
    ensures
        largest_text(before + seq![largest] + behind) == largest.display_name + "   "@ + size_text(
            largest.size_bytes as nat,
        ),
{
    last_largest_wins(before, largest, behind);
}

proof fn largest_is_bounded(entries: Seq<EntryView>, bound: u64)
    requires
        forall|index: int|
            0 <= index < entries.len() ==> (#[trigger] entries[index]).delete_status
                == StatusView::Deleted || entries[index].size_bytes <= bound,
    ensures
        crate::render::largest_remaining(entries) matches Some(found) ==> found.effective_size()
            <= bound,
    decreases entries.len(),
{
    if entries.len() > 0 {
        let shorter = entries.drop_last();
        assert forall|index: int| 0 <= index < shorter.len() implies (
        #[trigger] shorter[index]).delete_status == StatusView::Deleted
            || shorter[index].size_bytes <= bound by {
            assert(entries[index] == shorter[index]);
        }
        largest_is_bounded(shorter, bound);
        assert(entries[entries.len() - 1] == entries.last());
    }
}

proof fn last_largest_wins(before: Seq<EntryView>, largest: EntryView, behind: Seq<EntryView>)
    requires
        largest.delete_status != StatusView::Deleted,
        forall|index: int|
            0 <= index < before.len() ==> (#[trigger] before[index]).delete_status
                == StatusView::Deleted || before[index].size_bytes <= largest.size_bytes,
        forall|index: int|
            0 <= index < behind.len() ==> (#[trigger] behind[index]).delete_status
                == StatusView::Deleted || behind[index].size_bytes < largest.size_bytes,
    ensures
        crate::render::largest_remaining(before + seq![largest] + behind) == Some(largest),
    decreases behind.len(),
{
    let all = before + seq![largest] + behind;
    if behind.len() == 0 {
        largest_is_bounded(before, largest.size_bytes);
        assert(all.drop_last() =~= before);
        assert(all.last() == largest);
    } else {
        let shorter = behind.drop_last();
        assert forall|index: int| 0 <= index < shorter.len() implies (
        #[trigger] shorter[index]).delete_status == StatusView::Deleted
            || shorter[index].size_bytes < largest.size_bytes by {
            assert(behind[index] == shorter[index]);
        }
        last_largest_wins(before, largest, shorter);
        assert(all.drop_last() =~= before + seq![largest] + shorter);
        assert(all.last() == behind.last());
        assert(behind[behind.len() - 1] == behind.last());
    }
}

/// The line for the search shows the query with a block behind it while it is typed, an invitation
/// where there is none, and at the other end what the list is sorted by and in which direction.
pub proof fn search_line_shows_query_and_order(state: AppView, area: Rect)
    ensures
        ({
            let typing = state.mode == AppMode::Searching;
            let drawings = search_drawings(state, area);
            &&& drawings.len() == 2
            &&& drawings[0].area == area
            &&& drawings[1].area == inside_borders(area)
            &&& typing ==> search_left(state) == "Search › "@ + state.search_query + "█"@
            &&& !typing && state.search_query.len() > 0 ==> search_left(state) == "Search › "@
                + state.search_query
            &&& !typing && state.search_query.len() == 0 ==> search_left(state)
                == "Search ›  type to filter…"@
            &&& search_right(state) == "Sort: "@ + match state.sort_field {
                SortField::Size => "Size"@,
                SortField::Name => "Name"@,
                SortField::Modified => "Modified"@,
                SortField::Path => "Path"@,
            } + " "@ + match state.sort_order {
                SortOrder::Asc => "\u{2191}"@,
                SortOrder::Desc => "\u{2193}"@,
            }
            &&& exists|gap: Seq<char>|
                {
                    &&& gap.len() >= 1 && #[trigger] is_blank(gap)
                    &&& draws_text(
                        drawings[1],
                        search_left(state) + gap + search_right(state),
                    )
                }
        }),
{
    let inner = inside_borders(area);
    let left = search_left(state);
    let right = search_right(state);
    let room = inner.width - left.len() - right.len();
    let gap = crate::text::spaces(
        if room > 1 {
            room
        } else {
            1
        },
    );
    assert(is_blank(gap));
    assert(draws_text(search_drawings(state, area)[1], left + gap + right));
}

/// What stands behind a name tells what has become of the removal of its directory.
pub open spec fn told_of(status: StatusView) -> Seq<char> {
    match status {
        StatusView::Ready => Seq::empty(),
        StatusView::Deleting => " deleting…"@,
        StatusView::Deleted => " deleted"@,
        StatusView::Failed(reason) => " failed: "@ + reason,
    }
}

/// The only line of a cell.
pub open spec fn cell_line(row: RowView, cell: int) -> LineView {
    match row.cells[cell].text {
        TextView::Lines(lines) => lines[0],
        TextView::Plain(text) => LineView::Plain(text),
    }
}

proof fn highlighting_keeps_text(text: Seq<char>, query: Seq<char>)
    ensures
        crate::pieces::highlighted(text, query).text() == text,
{
    let small = crate::text::lower_text(text);
    let needle = crate::text::lower_text(query);
    if query.len() > 0 && crate::text::occurs_in(small, needle) {
        let place = crate::pieces::first_place(small, needle);
        let at = choose|at: int| crate::text::occurs_at(small, needle, at);
        first_place_is_first(small, needle, at);
        reveal_with_fuel(spans_text, 4);
        let line = crate::pieces::marked(text, place, place + query.len());
        match line {
            LineView::Spans(spans) => {
                assert(spans.drop_last() =~= seq![spans[0], spans[1]]);
                assert(spans.drop_last().drop_last() =~= seq![spans[0]]);
                assert(spans.drop_last().drop_last().drop_last() =~= Seq::<SpanView>::empty());
                assert(line.text() =~= text);
            },
            _ => {},
        }
    }
}

proof fn first_place_is_first(text: Seq<char>, needle: Seq<char>, at: int)
    requires
        crate::text::occurs_at(text, needle, at),
    ensures
        crate::text::occurs_first_at(text, needle, crate::pieces::first_place(text, needle)),
    decreases at,
{
    if crate::text::occurs_first_at(text, needle, at) {
    } else {
        let earlier = choose|earlier: int|
            earlier < at && #[trigger] crate::text::occurs_at(text, needle, earlier);
        first_place_is_first(text, needle, earlier);
    }
}

/// A row of the table tells of its entry: a mark where the cursor is, a sign for its selection or
/// its removal, its name and what has become of its removal, its size, its age and its path.
pub proof fn rows_tell_of_their_entries(state: AppView, now: Timestamp, row: int)
    requires
        0 <= row < state.filtered_indices.len(),
    ensures
        ({
            let entry = state.entries[state.filtered_indices[row] as int];
            let shown = table_rows(state, now)[row];
            let chosen = state.selected.contains(entry.target_path);
            &&& table_rows(state, now).len() == state.filtered_indices.len()
            &&& shown.cells.len() == 5
            &&& cell_line(shown, 0) matches LineView::Spans(spans) && spans.len() == 3
                && spans[0].text == if row == state.cursor {
                "▸"@
            } else {
                " "@
            } && spans[1].text == " "@ && spans[2].text == match entry.delete_status {
                StatusView::Ready => if chosen {
                    "✓"@
                } else {
                    " "@
                },
                StatusView::Deleting => spinner_picture(state.animation_tick as int),
                StatusView::Deleted => "✓"@,
                StatusView::Failed(_) => "!"@,
            }
            &&& cell_line(shown, 1).text() == entry.display_name + told_of(entry.delete_status)
            &&& cell_line(shown, 2).text() == size_cell_text(counted_size(entry) as nat)
            &&& cell_line(shown, 3).text() == days_ago_text(days_since(now, entry.modified_at))
            &&& cell_line(shown, 4).text() == compact_path_text(entry.relative_path)
        }),
{
    let entry = state.entries[state.filtered_indices[row] as int];
    let name = entry.display_name + told_of(entry.delete_status);
    reveal_strlit("");
    assert(""@ =~= Seq::<char>::empty());
    assert(entry.display_name + ""@ =~= entry.display_name + Seq::<char>::empty());
    highlighting_keeps_text(name, state.search_query);
    highlighting_keeps_text(compact_path_text(entry.relative_path), state.search_query);
    assert(crate::table::status_suffix(entry.delete_status) =~= told_of(entry.delete_status));
}

/// The colours of a row tell what has become of its entry and whether the cursor is on it; a size
/// of a gigabyte or more stands out.
pub proof fn rows_have_their_colours(state: AppView, now: Timestamp, row: int)
    requires
        0 <= row < state.filtered_indices.len(),
    ensures
        ({
            let entry = state.entries[state.filtered_indices[row] as int];
            let shown = table_rows(state, now)[row];
            let size = shown.cells[2].style;
            &&& shown.style.fg == Some(
                match entry.delete_status {
                    StatusView::Deleted => Color::TextMuted,
                    StatusView::Failed(_) => Color::AccentError,
                    _ => Color::TextPrimary,
                },
            )
            &&& shown.style.bg == Some(
                if row == state.cursor && (entry.delete_status is Ready
                    || entry.delete_status is Deleting) {
                    Color::ActiveRow
                } else {
                    Color::Background
                },
            )
            &&& !shown.style.bold
            &&& size.bg == shown.style.bg && !size.bold
            &&& size.fg == if counted_size(entry) >= 1_073_741_824 {
                Some(Color::AccentWarning)
            } else {
                shown.style.fg
            }
            &&& cell_line(shown, 0) matches LineView::Spans(spans) && spans[0].style == fg_style(
                Color::AccentPrimary,
            ) && spans[2].style == match entry.delete_status {
                StatusView::Ready => if state.selected.contains(entry.target_path) {
                    bold_style(Color::AccentSuccess)
                } else {
                    plain_style()
                },
                StatusView::Deleting => bold_style(Color::AccentPrimary),
                StatusView::Deleted => bold_style(Color::TextMuted),
                StatusView::Failed(_) => bold_style(Color::AccentError),
            }
        }),
{
}

/// The list is a table of all rows as soon as there are entries, with its columns named. Without
/// entries a running scan tells of itself, and without a scan the screen says that there is
/// nothing to clean.
pub proof fn list_is_a_table_or_says_why_not(state: AppView, area: Rect, now: Timestamp)
    ensures
        list_drawing(state, area, now).area == area,
        state.entries.len() > 0 ==> (list_drawing(
            state,
            area,
            now,
        ).widget matches WidgetView::Table(table) && table.rows == table_rows(state, now)
            && table.header.cells.len() == 5 && table.column_spacing == 1 && table.widths == seq![
            Constraint::Length(4),
            Constraint::Percentage(28),
            Constraint::Length(12),
            Constraint::Length(14),
            Constraint::Min(18),
        ] && cell_line(table.header, 0) == LineView::Plain(""@) && cell_line(table.header, 1)
            == LineView::Plain("PROJECT"@) && cell_line(table.header, 2) == LineView::Plain(
            "SIZE"@,
        ) && cell_line(table.header, 3) == LineView::Plain("MODIFIED"@) && cell_line(
            table.header,
            4,
        ) == LineView::Plain("TARGET"@)),
        state.entries.len() == 0 && state.mode == AppMode::Scanning ==> ({
            let lines = lines_of(list_drawing(state, area, now));
            &&& lines.len() == 4
            &&& is_line(
                lines[0],
                spinner_picture(state.animation_tick as int) + "  Scanning "@ + path_text(
                    state.root,
                ),
                bold_style(Color::TextPrimary),
            )
            &&& lines[1].text() == ""@
            &&& is_line(
                lines[2],
                decimal(state.scan_summary.discovered as nat) + " projects found · "@ + size_text(
                    state.scan_summary.total_bytes as nat,
                ) + " so far"@,
                fg_style(Color::TextSecondary),
            )
            &&& is_line(
                lines[3],
                match state.scan_summary.current_path {
                    Some(path) => "looking at "@ + relative_path_text(state.root, path),
                    None => "walking the filesystem"@,
                },
                fg_style(Color::TextMuted),
            )
        }),
        state.entries.len() == 0 && state.mode != AppMode::Scanning ==> ({
            let lines = lines_of(list_drawing(state, area, now));
            &&& lines.len() == 4
            &&& is_line(lines[0], "✓"@, fg_style(Color::AccentSuccess))
            &&& lines[1].text() == ""@
            &&& is_line(
                lines[2],
                "No reclaimable target/ found"@,
                bold_style(Color::TextPrimary),
            )
            &&& is_line(
                lines[3],
                "The current directory is already clean."@,
                fg_style(Color::TextSecondary),
            )
        }),
{
}

/// The hints for one more key stand behind the others, two spaces after them: the key, a space and
/// what it does.
pub proof fn hints_stand_behind_one_another(
    pairs: Seq<(Seq<char>, Seq<char>)>,
    key: Seq<char>,
    action: Seq<char>,
)
    ensures
        pairs.len() > 0 ==> spans_text(key_hints(pairs.push((key, action)))) == spans_text(
            key_hints(pairs),
        ) + "  "@ + key + " "@ + action,
        spans_text(key_hints(seq![(key, action)])) == key + " "@ + action,
        key_hints(Seq::empty()).len() == 0,
{
    reveal_with_fuel(spans_text, 5);
    let more = pairs.push((key, action));
    assert(more.drop_last() =~= pairs);
    let hints = key_hints(more);
    let single = seq![(key, action)];
    let alone = key_hints(single);
    assert(alone.drop_last().drop_last().drop_last() =~= Seq::<SpanView>::empty());
    assert(spans_text(alone) =~= key + " "@ + action);
    if pairs.len() > 0 {
        assert(hints.drop_last().drop_last().drop_last().drop_last() =~= key_hints(pairs));
        let before = hints.drop_last().drop_last().drop_last();
        assert(before.last().text == "  "@);
        assert(spans_text(before) == spans_text(key_hints(pairs)) + "  "@);
        assert(hints.drop_last().drop_last().last().text == key);
        assert(hints.drop_last().last().text == " "@);
        assert(hints.last().text == action);
        assert(spans_text(hints) =~= spans_text(key_hints(pairs)) + "  "@ + key + " "@ + action);
    }
}

/// The footer tells what the keys do in the mode that the program is in, and behind that how many
/// directories were cleaned and how much was freed, once there are some.
pub proof fn footer_tells_keys_and_what_was_cleaned(state: AppView, area: Rect)
    requires
        state.wf(),
    ensures
        ({
            let hints = key_hints(
                match state.mode {
                    AppMode::Searching => seq![
                        ("esc"@, "cancel"@),
                        ("enter"@, "apply"@),
                        ("type"@, "filter"@),
                    ],
                    AppMode::SortMenu { .. } => seq![
                        ("↑↓"@, "pick"@),
                        ("enter"@, "apply"@),
                        ("s"@, "toggle"@),
                        ("esc"@, "close"@),
                    ],
                    _ => seq![
                        ("↑↓"@, "navigate"@),
                        ("space"@, "select"@),
                        ("a"@, "all"@),
                        ("i"@, "invert"@),
                        ("/"@, "search"@),
                        ("s"@, "sort"@),
                        ("d"@, "delete focused"@),
                        ("r"@, "rescan"@),
                        ("?"@, "help"@),
                        ("q"@, "quit"@),
                    ],
                },
            );
            let line = footer_line(state);
            let gone = state.deleted_entries();
            let lines = lines_of(footer_drawing(state, area));
            &&& footer_drawing(state, area).area == area
            &&& lines.len() == 1 && lines[0] == LineView::Spans(line)
            &&& gone.len() == 0 ==> line == hints
            &&& gone.len() > 0 ==> line.len() == hints.len() + 2 && line.take(hints.len() as int)
                == hints && line[hints.len() as int].text == "    "@ && line.last().text == decimal(
                gone.len(),
            ) + " cleaned · "@ + size_text(original_total(gone)) + " freed"@
        }),
{
    crate::selection_laws::cleaned_tells_the_gone(state);
    let hints = key_hints(crate::render::hint_pairs(state.mode));
    assert(footer_line(state).take(hints.len() as int) =~= hints);
}

/// The title tells the name of the program, the root, how many directories were found and how
/// long that took.
pub proof fn title_tells_the_scan(state: AppView, screen: Rect)
    ensures
        ({
            let drawings = frame_drawings(state, screen);
            let spans = title_spans(state);
            &&& drawings.len() == 2
            &&& drawings[0].area == screen && drawings[1].area == screen
            &&& drawings[0].widget == WidgetView::Fill(bg_style(Color::Background))
            &&& drawings[1].widget matches WidgetView::Block(block) && block.title == Some(
                LineView::Spans(spans),
            ) && block.style == both_style(Color::Border, Color::Background)
            &&& spans.len() == 3
            &&& spans[0].text == " purgee "@ && spans[0].style == bold_style(Color::TextPrimary)
            &&& spans[1].text == path_text(state.root) && spans[1].style == fg_style(
                Color::TextSecondary,
            )
            &&& spans[2].text == "  scanned "@ + decimal(state.scan_summary.discovered as nat)
                + " in "@ + crate::duration::duration_text(state.scan_summary.elapsed) + " "@
                && spans[2].style == fg_style(Color::TextMuted)
        }),
{
}

/// The menu of fields offers size, name, last change and path in this order, marks the chosen one,
/// and shows the direction behind the field that the list is sorted by, and behind no other.
pub proof fn menu_offers_the_fields(state: AppView, index: int, row: int)
    requires
        0 <= row < 4,
    ensures
        ({
            let name = if row == 0 {
                "Size"@
            } else if row == 1 {
                "Name"@
            } else if row == 2 {
                "Modified"@
            } else {
                "Path"@
            };
            let sorted = match state.sort_field {
                SortField::Size => row == 0,
                SortField::Name => row == 1,
                SortField::Modified => row == 2,
                SortField::Path => row == 3,
            };
            let arrow = match state.sort_order {
                SortOrder::Asc => "\u{2191}"@,
                SortOrder::Desc => "\u{2193}"@,
            };
            &&& menu_lines(state, index).len() == 4
            &&& exists|gap: Seq<char>|
                {
                    &&& #[trigger] is_blank(gap)
                    &&& name.len() + gap.len() == 10
                    &&& is_line(
                        menu_lines(state, index)[row],
                        if row == index {
                            "▸"@
                        } else {
                            " "@
                        } + " "@ + (name + gap) + " "@ + if sorted {
                            arrow
                        } else {
                            " "@
                        },
                        if row == index {
                            bold_style(Color::AccentPrimary)
                        } else {
                            fg_style(Color::TextPrimary)
                        },
                    )
                }
        }),
{
    reveal_strlit("Size");
    reveal_strlit("Name");
    reveal_strlit("Modified");
    reveal_strlit("Path");
    let name = crate::entry::sort_field_label(crate::entry::sort_fields()[row]);
    let gap = crate::text::spaces(10 - name.len());
    let sorted = crate::entry::sort_fields()[row] == state.sort_field;
    let arrow = crate::entry::sort_order_symbol(state.sort_order);
    assert(is_blank(gap));
    assert(name.len() + gap.len() == 10);
    assert(is_line(
        menu_lines(state, index)[row],
        if row == index {
            "▸"@
        } else {
            " "@
        } + " "@ + (name + gap) + " "@ + if sorted {
            arrow
        } else {
            " "@
        },
        if row == index {
            bold_style(Color::AccentPrimary)
        } else {
            fg_style(Color::TextPrimary)
        },
    ));
}

/// The help tells every key with what it does.
pub proof fn help_tells_every_key(screen: Rect)
    ensures
        ({
            let drawings = help_drawings(screen);
            &&& drawings.len() == 2
            &&& drawings[0].widget is Clear
            &&& drawings[0].area == drawings[1].area
            &&& drawings[1].widget matches WidgetView::Paragraph(paragraph)
                && paragraph.block matches Some(block) && block.title == Some(
                LineView::Plain(" Help "@),
            )
            &&& lines_of(drawings[1]) == seq![
                LineView::Plain("↑ ↓ / j k   Move cursor"@),
                LineView::Plain("g / G       Jump to top / bottom"@),
                LineView::Plain("space       Toggle selection"@),
                LineView::Plain("a           Toggle all filtered rows"@),
                LineView::Plain("i           Invert filtered selection"@),
                LineView::Plain("/           Search"@),
                LineView::Plain("s           Sort"@),
                LineView::Plain("d           Delete focused row immediately"@),
                LineView::Plain("r           Rescan"@),
                LineView::Plain("?           Toggle help"@),
                LineView::Plain("q / ctrl-c  Quit"@),
            ]
        }),
{
}

/// The screen is drawn from the background to the footer, each part on its own row; above it lies
/// the menu of fields or the help, in the modes that have them, and nothing in the others.
pub proof fn screen_is_drawn_part_by_part(
    state: AppView,
    screen: Rect,
    rows: Seq<Rect>,
    now: Timestamp,
)
    ensures
        ({
            let all = screen_drawings(state, screen, rows, now);
            let above = all.skip(13);
            &&& all.len() >= 13
            &&& all.take(2) == frame_drawings(state, screen)
            &&& all[2] == header_drawing(state, rows[0])
            &&& all.subrange(3, 9) == stats_drawings(state, rows[1])
            &&& all.subrange(9, 11) == search_drawings(state, rows[2])
            &&& all[11] == list_drawing(state, rows[3], now)
            &&& all[12] == footer_drawing(state, rows[4])
            &&& match state.mode {
                AppMode::SortMenu { index } => above.len() == 2 && above[0].widget is Clear
                    && lines_of(above[1]) == menu_lines(state, index as int),
                AppMode::Help => above == help_drawings(screen),
                _ => above.len() == 0,
            }
        }),
{
    let all = screen_drawings(state, screen, rows, now);
    assert(stats_drawings(state, rows[1]).len() == 6);
    assert(search_drawings(state, rows[2]).len() == 2);
    assert(all.take(2) =~= frame_drawings(state, screen));
    assert(all.subrange(3, 9) =~= stats_drawings(state, rows[1]));
    assert(all.subrange(9, 11) =~= search_drawings(state, rows[2]));
    assert(all.skip(13) =~= popup(state, screen));
}

/// The ten pictures of the spinner all differ.
pub proof fn spinner_pictures_differ(left: int, right: int)
    requires
        0 <= left < right < 10,
    ensures
        spinner_picture(left) != spinner_picture(right),
{
    reveal_strlit("⠋");
    reveal_strlit("⠙");
    reveal_strlit("⠹");
    reveal_strlit("⠸");
    reveal_strlit("⠼");
    reveal_strlit("⠴");
    reveal_strlit("⠦");
    reveal_strlit("⠧");
    reveal_strlit("⠇");
    reveal_strlit("⠏");
    let first = spinner_pictures()[left];
    let second = spinner_pictures()[right];
    assert(first[0] != second[0]);
}

} // verus!
