//! Areas of the screen, and how they are divided.

use ratatui::layout;
use ratatui::widgets;
use vstd::prelude::*;

verus! {

/// A rectangle of the screen, in character cells.
#[derive(Clone, Copy, Debug, PartialEq, Eq, Structural)]
pub struct Rect {
    pub x: u16,
    pub y: u16,
    pub width: u16,
    pub height: u16,
}

/// The way in which an area is divided: into rows or into columns.
#[derive(Clone, Copy, Debug, PartialEq, Eq, Structural)]
pub enum Direction {
    Horizontal,
    Vertical,
}

/// What one part of a divided area asks for.
#[derive(Clone, Copy, Debug, PartialEq, Eq, Structural)]
pub enum Constraint {
    /// A number of cells.
    Length(u16),
    /// At least a number of cells, and what the others leave.
    Min(u16),
    /// A share of the whole area, in hundredths.
    Percentage(u16),
}

/// A coordinate no larger than the largest one.
pub open spec fn clamped(coordinate: int) -> int {
    if coordinate > u16::MAX {
        u16::MAX as int
    } else {
        coordinate
    }
}

impl Rect {
    /// The first column to the right of the rectangle.
    pub open spec fn right(self) -> int {
        clamped(self.x + self.width)
    }

    /// The first row below the rectangle.
    pub open spec fn bottom(self) -> int {
        clamped(self.y + self.height)
    }

    /// Whether no cell of the rectangle lies outside another one.
    pub open spec fn lies_inside(self, area: Rect) -> bool {
        &&& area.x <= self.x
        &&& self.x + self.width <= area.right()
        &&& area.y <= self.y
        &&& self.y + self.height <= area.bottom()
    }
}

/// The cells that are left inside borders on all four sides.
pub open spec fn inside_borders(area: Rect) -> Rect {
    Rect {
        x: if clamped(area.x + 1) < area.right() {
            clamped(area.x + 1) as u16
        } else {
            area.right() as u16
        },
        y: if clamped(area.y + 1) < area.bottom() {
            clamped(area.y + 1) as u16
        } else {
            area.bottom() as u16
        },
        width: if area.width < 2 {
            0
        } else {
            (area.width - 2) as u16
        },
        height: if area.height < 2 {
            0
        } else {
            (area.height - 2) as u16
        },
    }
}

/// What is left of an area inside borders, by `ratatui::widgets::Block::inner` of a block with
/// `Borders::ALL`: one cell less on each side, nothing where there are not enough cells.
#[verifier::external_body]
pub(crate) fn bordered_inner(area: Rect) -> (result: Rect)
    ensures
        result == inside_borders(area),
{
    let whole = layout::Rect { x: area.x, y: area.y, width: area.width, height: area.height };
    let inner = widgets::Block::default().borders(widgets::Borders::ALL).inner(whole);
    Rect { x: inner.x, y: inner.y, width: inner.width, height: inner.height }
}

/// How many cells an area takes up in a direction.
pub open spec fn extent_of(direction: Direction, area: Rect) -> int {
    match direction {
        Direction::Horizontal => area.right() - area.x,
        Direction::Vertical => area.bottom() - area.y,
    }
}

/// The part of an area from one distance from its beginning to another one, in a direction.
pub open spec fn strip(direction: Direction, area: Rect, from: int, to: int) -> Rect {
    match direction {
        Direction::Horizontal => Rect {
            x: (area.x + from) as u16,
            width: (to - from) as u16,
            ..area
        },
        Direction::Vertical => Rect {
            y: (area.y + from) as u16,
            height: (to - from) as u16,
            ..area
        },
    }
}

/// The hundredths that parts ask for, where all of them ask for a share.
pub open spec fn hundredths(constraints: Seq<Constraint>) -> Option<nat>
    decreases constraints.len(),
{
    if constraints.len() == 0 {
        Some(0)
    } else {
        match (hundredths(constraints.drop_last()), constraints.last()) {
            (Some(before), Constraint::Percentage(share)) => Some(before + share as nat),
            _ => None,
        }
    }
}

/// A share of a number of cells in hundredths, rounded to whole cells.
pub open spec fn share(extent: int, hundredths: nat) -> int {
    (extent * hundredths + 50) / 100
}

/// The cells that parts ask for at least, where none of them asks for a share.
pub open spec fn cells(constraints: Seq<Constraint>) -> Option<nat>
    decreases constraints.len(),
{
    if constraints.len() == 0 {
        Some(0)
    } else {
        match (cells(constraints.drop_last()), constraints.last()) {
            (Some(before), Constraint::Length(length)) => Some(before + length as nat),
            (Some(before), Constraint::Min(least)) => Some(before + least as nat),
            _ => None,
        }
    }
}

/// Whether the part at a position takes what the others leave, and every other one asks for a
/// length.
pub open spec fn only_filler(constraints: Seq<Constraint>, filler: int) -> bool {
    &&& 0 <= filler < constraints.len()
    &&& constraints[filler] is Min
    &&& forall|index: int|
        0 <= index < constraints.len() && index != filler ==> (
        #[trigger] constraints[index]) is Length
}

/// The distance from the beginning of an area at which a part begins, where the part at `filler`
/// takes what the others leave.
pub open spec fn filled_start(
    constraints: Seq<Constraint>,
    filler: int,
    extent: int,
    index: int,
) -> int {
    cells(constraints.take(index))->0 + if index > filler {
        extent - cells(constraints)->0
    } else {
        0
    }
}

/// Where a part begins in a direction.
pub open spec fn start_of(direction: Direction, part: Rect) -> int {
    match direction {
        Direction::Horizontal => part.x as int,
        Direction::Vertical => part.y as int,
    }
}

/// How many cells a part has in a direction.
pub open spec fn length_of(direction: Direction, part: Rect) -> int {
    match direction {
        Direction::Horizontal => part.width as int,
        Direction::Vertical => part.height as int,
    }
}

/// Where a part ends in a direction.
pub open spec fn end_of(direction: Direction, part: Rect) -> int {
    start_of(direction, part) + length_of(direction, part)
}

/// Whether a part ends, in a direction, no later than another one begins.
pub open spec fn precedes(direction: Direction, part: Rect, other: Rect) -> bool {
    end_of(direction, part) <= start_of(direction, other)
}

/// Whether parts make up an area: the first begins where the area does, each begins where the
/// one before it ends, and the last ends where the area does.
pub open spec fn fills(direction: Direction, area: Rect, parts: Seq<Rect>) -> bool {
    parts.len() > 0 ==> {
        &&& start_of(direction, parts[0]) == start_of(direction, area)
        &&& forall|left: int, right: int|
            0 <= left < right < parts.len() && right == left + 1 ==> end_of(
                direction,
                #[trigger] parts[left],
            ) == start_of(direction, #[trigger] parts[right])
        &&& end_of(direction, parts.last()) == start_of(direction, area) + extent_of(
            direction,
            area,
        )
    }
}

/// Whether cells that are short are shared out by rank: the part that takes what the others leave
/// comes first, and gets what it asks for as far as there are cells; no other part gets more than
/// it asks for.
pub open spec fn filler_comes_first(
    direction: Direction,
    constraints: Seq<Constraint>,
    filler: int,
    extent: int,
    parts: Seq<Rect>,
) -> bool {
    &&& constraints[filler] matches Constraint::Min(least) && length_of(direction, parts[filler])
        == if least < extent {
        least as int
    } else {
        extent
    }
    &&& forall|index: int|
        0 <= index < parts.len() && index != filler ==> (
        #[trigger] constraints[index] matches Constraint::Length(length) && length_of(
            direction,
            parts[index],
        ) <= length)
}

/// Whether an area was divided into parts. Each part lies inside the area and reaches from one
/// side of it to the other. Where no part asks for a share, the parts stand in their order and do
/// not overlap; where they ask for at least the cells that there are, they make up the area.
/// Where all parts ask for shares, of no more than the whole, each gets its share, one behind the
/// other. Where one part takes what the others leave, and there are cells enough, each of the
/// others gets what it asks for; where cells are short, that part comes first.
pub open spec fn divides(
    direction: Direction,
    constraints: Seq<Constraint>,
    area: Rect,
    parts: Seq<Rect>,
) -> bool {
    let extent = extent_of(direction, area);
    &&& parts.len() == constraints.len()
    &&& forall|index: int|
        0 <= index < parts.len() ==> {
            let part = #[trigger] parts[index];
            &&& match direction {
                Direction::Horizontal => part.y == area.y && part.height == area.height && area.x
                    <= part.x && part.x + part.width <= area.right(),
                Direction::Vertical => part.x == area.x && part.width == area.width && area.y
                    <= part.y && part.y + part.height <= area.bottom(),
            }
        }
    &&& cells(constraints) is Some ==> forall|left: int, right: int|
        0 <= left < right < parts.len() ==> precedes(
            direction,
            #[trigger] parts[left],
            #[trigger] parts[right],
        )
    &&& cells(constraints) is Some && cells(constraints)->0 >= extent ==> fills(
        direction,
        area,
        parts,
    )
    &&& forall|filler: int| #[trigger]
        only_filler(constraints, filler) && constraints[filler]->Min_0 <= i16::MAX && cells(
            constraints,
        )->0 >= extent ==> filler_comes_first(direction, constraints, filler, extent, parts)
    &&& hundredths(constraints) is Some && hundredths(constraints)->0 <= 100 ==> forall|index: int|
        0 <= index < parts.len() ==> #[trigger] parts[index] == strip(
            direction,
            area,
            share(extent, hundredths(constraints.take(index))->0),
            share(extent, hundredths(constraints.take(index + 1))->0),
        )
    &&& forall|filler: int, index: int|
        #[trigger] only_filler(constraints, filler) && cells(constraints)->0 <= extent && 0 <= index
            < parts.len() ==> #[trigger] parts[index] == strip(
            direction,
            area,
            filled_start(constraints, filler, extent, index),
            filled_start(constraints, filler, extent, index + 1),
        )
}

/// Divides an area, by `ratatui::layout::Layout::split` of a layout with default margins, flex
/// and spacing. The parts come out of a solver of weighted constraints: that each part lies
/// inside the area is required of every solution, that the parts touch weighs more than any size,
/// a least number of cells weighs more than a length, a length more than free cells, and the
/// parts asked for come out as asked for where they can all be met at once. A least number above
/// `i16::MAX` is taken as a negative one. Nothing is said of which of several lengths are cut
/// short, nor of the order of parts where some ask for cells and some for shares, or for shares
/// of more than the whole: there two ends at the same place can be rounded to different cells.
#[verifier::external_body]
pub(crate) fn split(direction: Direction, constraints: &Vec<Constraint>, area: Rect) -> (result:
    Vec<Rect>)
    requires
        constraints@.len() <= 8,
    ensures
        divides(direction, constraints@, area, result@),
{
    let parts = constraints.iter().map(|part| match *part {
        Constraint::Length(length) => layout::Constraint::Length(length),
        Constraint::Min(least) => layout::Constraint::Min(least),
        Constraint::Percentage(share) => layout::Constraint::Percentage(share),
    });
    let way = match direction {
        Direction::Horizontal => layout::Direction::Horizontal,
        Direction::Vertical => layout::Direction::Vertical,
    };
    let whole = layout::Rect { x: area.x, y: area.y, width: area.width, height: area.height };
    let found = layout::Layout::default().direction(way).constraints(parts).split(whole);
    found.iter().map(|r| Rect { x: r.x, y: r.y, width: r.width, height: r.height }).collect()
}

/// What the three parts of a row or a column ask for so that the middle one gets a share.
pub open spec fn middle_share(percent: int) -> Seq<Constraint> {
    let beside = Constraint::Percentage(((100 - percent) / 2) as u16);
    seq![beside, Constraint::Percentage(percent as u16), beside]
}

/// The area that takes up a share of another one and lies in its middle.
pub open spec fn middle_of(percent_x: int, percent_y: int, area: Rect) -> Rect {
    let beside_x = ((100 - percent_x) / 2) as nat;
    let beside_y = ((100 - percent_y) / 2) as nat;
    let until_x = ((100 + percent_x) / 2) as nat;
    let until_y = ((100 + percent_y) / 2) as nat;
    let width = area.right() - area.x;
    let height = area.bottom() - area.y;
    Rect {
        x: (area.x + share(width, beside_x)) as u16,
        y: (area.y + share(height, beside_y)) as u16,
        width: (share(width, until_x) - share(width, beside_x)) as u16,
        height: (share(height, until_y) - share(height, beside_y)) as u16,
    }
}

proof fn middle_strip(direction: Direction, percent: int, area: Rect, parts: Seq<Rect>)
    requires
        0 <= percent <= 100,
        divides(direction, middle_share(percent), area, parts),
    ensures
        ({
            let beside = ((100 - percent) / 2) as nat;
            let extent = extent_of(direction, area);
            parts[1] == strip(
                direction,
                area,
                share(extent, beside),
                share(extent, ((100 + percent) / 2) as nat),
            )
        }),
{
    let all = middle_share(percent);
    let beside = ((100 - percent) / 2) as nat;
    assert(all.drop_last() =~= all.take(2));
    assert(all.take(2).drop_last() =~= all.take(1));
    assert(all.take(1).drop_last() =~= all.take(0));
    assert(hundredths(all.take(0)) == Some(0nat));
    assert(hundredths(all.take(1)) == Some(beside));
    assert(hundredths(all.take(2)) == Some(((100 + percent) / 2) as nat));
    assert(hundredths(all) == Some((2 * beside + percent) as nat));
    assert(parts[1] == strip(
        direction,
        area,
        share(extent_of(direction, area), hundredths(all.take(1))->0),
        share(extent_of(direction, area), hundredths(all.take(2))->0),
    ));
}

/// An area in the middle of another one, with a share of its width and one of its height.
pub fn centered_rect(percent_x: u16, percent_y: u16, area: Rect) -> (result: Rect)
    requires
        percent_x <= 100,
        percent_y <= 100,
    ensures
        result == middle_of(percent_x as int, percent_y as int, area),
        result.lies_inside(area),
{
    let beside_y = Constraint::Percentage((100 - percent_y) / 2);
    let by_height = vec![beside_y, Constraint::Percentage(percent_y), beside_y];
    assert(by_height@ =~= middle_share(percent_y as int));
    let rows = split(Direction::Vertical, &by_height, area);
    let beside_x = Constraint::Percentage((100 - percent_x) / 2);
    let by_width = vec![beside_x, Constraint::Percentage(percent_x), beside_x];
    assert(by_width@ =~= middle_share(percent_x as int));
    let columns = split(Direction::Horizontal, &by_width, rows[1]);
    proof {
        middle_strip(Direction::Vertical, percent_y as int, area, rows@);
        middle_strip(Direction::Horizontal, percent_x as int, rows@[1], columns@);
    }
    columns[1]
}

} // verus!
