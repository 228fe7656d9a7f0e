//! What holds of everything that is shown.

use crate::draw::DrawingView;
use crate::entry::EntryView;
use crate::layout::{extent_of, inside_borders, middle_of, share, Direction, Rect};
use crate::model::{AppView, SPINNER_LENGTH};
use crate::pieces::{compact_path_text, spinner_picture};
use crate::render::{
    card_areas, divides_screen, flush_both, footer_drawing, frame_drawings, header_drawing,
    largest_remaining, popup, screen_drawings, search_drawings, shows, stats_drawings,
};
use crate::table::list_drawing;
use crate::time::{days_since, Timestamp};
use vstd::prelude::*;

verus! {

/// Whether all steps of drawing stay on the screen.
pub open spec fn stays_on(screen: Rect, drawings: Seq<DrawingView>) -> bool {
    forall|index: int|
        0 <= index < drawings.len() ==> (#[trigger] drawings[index]).area.lies_inside(screen)
}

proof fn both_stay_on(screen: Rect, first: Seq<DrawingView>, second: Seq<DrawingView>)
    requires
        stays_on(screen, first),
        stays_on(screen, second),
    ensures
        stays_on(screen, first + second),
{
    let both = first + second;
    assert forall|index: int| 0 <= index < both.len() implies (
    #[trigger] both[index]).area.lies_inside(screen) by {
        if index < first.len() {
            assert(both[index] == first[index]);
        } else {
            assert(both[index] == second[index - first.len()]);
        }
    }
}

proof fn shares_grow(extent: int, less: nat, more: nat)
    requires
        extent >= 0,
        less <= more <= 100,
    ensures
        0 <= share(extent, less) <= share(extent, more) <= extent,
{
    assert(0 <= extent * less <= extent * more <= extent * 100) by (nonlinear_arith)
        requires
            extent >= 0,
            less <= more <= 100,
    ;
}

proof fn middle_stays_on(percent_x: int, percent_y: int, screen: Rect)
    requires
        0 <= percent_x <= 100,
        0 <= percent_y <= 100,
    ensures
        middle_of(percent_x, percent_y, screen).lies_inside(screen),
{
    let width = screen.right() - screen.x;
    let height = screen.bottom() - screen.y;
    let beside_x = ((100 - percent_x) / 2) as nat;
    let beside_y = ((100 - percent_y) / 2) as nat;
    shares_grow(width, beside_x, ((100 + percent_x) / 2) as nat);
    shares_grow(height, beside_y, ((100 + percent_y) / 2) as nat);
}

proof fn cards_stay_on(state: AppView, area: Rect, screen: Rect)
    requires
        area.lies_inside(screen),
        area.y + area.height <= u16::MAX,
    ensures
        stays_on(screen, stats_drawings(state, area)),
{
    let width = extent_of(Direction::Horizontal, area);
    shares_grow(width, 28, 56);
    shares_grow(width, 56, 100);
    let areas = card_areas(area);
    assert(areas[0].lies_inside(screen));
    assert(areas[1].lies_inside(screen));
    assert(areas[2].lies_inside(screen));
    assert(inside_borders(areas[0]).lies_inside(screen));
    assert(inside_borders(areas[1]).lies_inside(screen));
    assert(inside_borders(areas[2]).lies_inside(screen));
    let drawings = stats_drawings(state, area);
    assert(drawings.len() == 6);
    assert forall|index: int| 0 <= index < drawings.len() implies (
    #[trigger] drawings[index]).area.lies_inside(screen) by {
        assert(drawings[index].area == areas[index / 2] || drawings[index].area == inside_borders(
            areas[index / 2],
        ));
    }
}

proof fn rows_stay_on(state: AppView, screen: Rect, rows: Seq<Rect>, now: Timestamp)
    requires
        screen.x + screen.width <= u16::MAX,
        screen.y + screen.height <= u16::MAX,
        rows.len() == 5,
        forall|index: int| 0 <= index < 5 ==> (#[trigger] rows[index]).lies_inside(screen),
    ensures
        stays_on(screen, screen_drawings(state, screen, rows, now)),
{
    let first = frame_drawings(state, screen).push(header_drawing(state, rows[0]));
    assert(rows[0].lies_inside(screen));
    assert(stays_on(screen, first));
    let second = stats_drawings(state, rows[1]);
    assert(rows[1].lies_inside(screen));
    cards_stay_on(state, rows[1], screen);
    assert(rows[2].lies_inside(screen));
    assert(rows[3].lies_inside(screen));
    assert(rows[4].lies_inside(screen));
    let third = search_drawings(state, rows[2]).push(list_drawing(state, rows[3], now)).push(
        footer_drawing(state, rows[4]),
    );
    assert(inside_borders(rows[2]).lies_inside(screen));
    assert(stays_on(screen, third));
    let last = popup(state, screen);
    middle_stays_on(34, 34, screen);
    middle_stays_on(74, 72, screen);
    assert(stays_on(screen, last));
    both_stay_on(screen, first, second);
    both_stay_on(screen, first + second, third);
    both_stay_on(screen, first + second + third, last);
}

/// Nothing is drawn outside of the screen, in whatever way the screen was divided.
#[verifier::spinoff_prover]
#[verifier::rlimit(60)]
pub proof fn drawings_stay_on_the_screen(
    state: AppView,
    screen: Rect,
    now: Timestamp,
    drawings: Seq<DrawingView>,
)
    requires
        screen.x + screen.width <= u16::MAX,
        screen.y + screen.height <= u16::MAX,
        shows(state, screen, now, drawings),
    ensures
        stays_on(screen, drawings),
{
    let inner = inside_borders(screen);
    let rows = choose|rows: Seq<Rect>|
        {
            &&& #[trigger] divides_screen(inner, rows)
            &&& drawings == screen_drawings(state, screen, rows, now)
        };
    assert(inner.lies_inside(screen));
    assert forall|index: int| 0 <= index < 5 implies (#[trigger] rows[index]).lies_inside(
        screen,
    ) by {}
    rows_stay_on(state, screen, rows, now);
}

/// No directory that is not gone is larger than the one that is shown as the largest. None is
/// shown only where all are gone.
pub proof fn largest_is_largest(entries: Seq<EntryView>, index: int)
    requires
        0 <= index < entries.len(),
        !(entries[index].delete_status is Deleted),
    ensures
        largest_remaining(entries) matches Some(largest) && entries[index].effective_size()
            <= largest.effective_size() && entries.contains(largest)
            && !(largest.delete_status is Deleted),
    decreases entries.len(),
{
    let shorter = entries.drop_last();
    if index < shorter.len() {
        largest_is_largest(shorter, index);
        let before = largest_remaining(shorter)->0;
        assert(shorter.contains(before));
        let at = shorter.index_of(before);
        assert(entries[at] == before);
        assert(entries[entries.len() - 1] == entries.last());
    } else {
        assert(entries[entries.len() - 1] == entries.last());
        largest_is_one_of_the_list(shorter);
    }
}

proof fn largest_is_one_of_the_list(entries: Seq<EntryView>)
    ensures
        largest_remaining(entries) matches Some(largest) ==> entries.contains(largest) && !(
        largest.delete_status is Deleted),
    decreases entries.len(),
{
    if entries.len() > 0 {
        largest_is_one_of_the_list(entries.drop_last());
        assert(entries[entries.len() - 1] == entries.last());
        match largest_remaining(entries.drop_last()) {
            Some(before) => {
                let at = entries.drop_last().index_of(before);
                assert(entries[at] == before);
            },
            None => {},
        }
    }
}

/// The line for the search is as wide as its place wherever both of its texts fit in.
pub proof fn search_line_fills_its_place(left: Seq<char>, right: Seq<char>, width: int)
    ensures
        left.len() + right.len() < width ==> flush_both(left, right, width).len() == width,
        left.is_prefix_of(flush_both(left, right, width)),
        right.is_suffix_of(flush_both(left, right, width)),
{
    let line = flush_both(left, right, width);
    assert(line.subrange(0, left.len() as int) =~= left);
    assert(line.subrange(line.len() - right.len(), line.len() as int) =~= right);
}

/// After as many steps as it has pictures the spinner looks as before.
pub proof fn spinner_repeats(index: int)
    ensures
        spinner_picture(index + SPINNER_LENGTH) == spinner_picture(index),
{
}

/// A path that is short enough is shown as it is; every other one ends as a `target` directory
/// does.
pub proof fn compact_paths_end_in_target(path: Seq<char>)
    ensures
        path.len() <= 28 ==> compact_path_text(path) == path,
        path.len() > 28 ==> "/target"@.is_suffix_of(compact_path_text(path)),
{
    let shown = compact_path_text(path);
    if path.len() > 28 {
        assert(shown.subrange(shown.len() - "/target"@.len(), shown.len() as int) =~= "/target"@);
    }
}

/// What was changed earlier is never shown as changed more recently.
pub proof fn ages_follow_time(now: Timestamp, earlier: Timestamp, later: Timestamp)
    requires
        earlier.instant() <= later.instant(),
    ensures
        days_since(now, later) <= days_since(now, earlier),
{
}

} // verus!
