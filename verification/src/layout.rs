//! Areas of the terminal and how they are divided.

use ratatui::layout::{Constraint, Layout, Rect};
use ratatui::widgets::{Block, Borders};
use vstd::prelude::*;

verus! {

/// An area of the terminal.
#[derive(Debug, Clone, Copy, PartialEq, Eq, Structural)]
pub struct Area {
    pub x: u16,
    pub y: u16,
    pub width: u16,
    pub height: u16,
}

/// How the parts of an area lie.
#[derive(Debug, Clone, Copy, PartialEq, Eq, Structural)]
pub enum Direction {
    /// One below the other.
    Vertical,
    /// One beside the other.
    Horizontal,
}

/// How large a part of an area is to be.
#[derive(Debug, Clone, Copy, PartialEq, Eq, Structural)]
pub enum Size {
    /// A number of rows or columns.
    Length(u16),
    /// A share of what is left over.
    Fill(u16),
    /// A fraction of the area.
    Ratio(u32, u32),
}

/// Where an area starts in a direction.
pub open spec fn start(area: Area, direction: Direction) -> int {
    match direction {
        Direction::Vertical => area.y as int,
        Direction::Horizontal => area.x as int,
    }
}

/// How far an area reaches in a direction.
pub open spec fn extent(area: Area, direction: Direction) -> int {
    match direction {
        Direction::Vertical => area.height as int,
        Direction::Horizontal => area.width as int,
    }
}

/// The direction across another.
pub open spec fn across(direction: Direction) -> Direction {
    match direction {
        Direction::Vertical => Direction::Horizontal,
        Direction::Horizontal => Direction::Vertical,
    }
}

/// The lengths among the first sizes together, with `spare` for each share.
pub open spec fn taken(sizes: Seq<Size>, n: int, spare: int) -> int
    decreases n,
{
    if n <= 0 {
        0
    } else {
        taken(sizes, n - 1, spare) + reach(sizes[n - 1], spare)
    }
}

/// How far a part of a size reaches, with `spare` for a share.
pub open spec fn reach(size: Size, spare: int) -> int {
    match size {
        Size::Length(n) => n as int,
        Size::Fill(_) => spare,
        Size::Ratio(..) => 0,
    }
}

/// What the lengths leave of an area.
pub open spec fn left_over(area: Area, direction: Direction, sizes: Seq<Size>) -> int {
    extent(area, direction) - taken(sizes, sizes.len() as int, 0)
}

/// The sizes are lengths that an area has room for, and at most one share of
/// what is left over.
pub open spec fn fits(area: Area, direction: Direction, sizes: Seq<Size>) -> bool {
    &&& start(area, direction) + extent(area, direction) <= u16::MAX
    &&& left_over(area, direction, sizes) >= 0
    &&& forall|i: int| 0 <= i < sizes.len() ==> !((#[trigger] sizes[i]) is Ratio)
    &&& forall|i: int, j: int|
        0 <= i < j < sizes.len() ==> !(#[trigger] sizes[i] is Fill && #[trigger] sizes[j] is Fill)
}

/// The sizes are lengths that an area has no room for, and shares of what is
/// left over. They are few, so that no rounding parts two neighbours.
pub open spec fn overflows(area: Area, direction: Direction, sizes: Seq<Size>) -> bool {
    &&& start(area, direction) + extent(area, direction) <= u16::MAX
    &&& left_over(area, direction, sizes) < 0
    &&& sizes.len() <= 100
    &&& forall|i: int| 0 <= i < sizes.len() ==> !((#[trigger] sizes[i]) is Ratio)
}

/// The parts lie one after the other, from the start of an area to its end.
pub open spec fn covers(area: Area, direction: Direction, parts: Seq<Area>) -> bool {
    &&& parts.len() > 0
    &&& start(parts[0], direction) == start(area, direction)
    &&& forall|i: int, j: int|
        0 <= i && j == i + 1 && j < parts.len() ==> start(#[trigger] parts[j], direction) == start(
            #[trigger] parts[i],
            direction,
        ) + extent(parts[i], direction)
    &&& start(parts.last(), direction) + extent(parts.last(), direction) == start(area, direction)
        + extent(area, direction)
}

/// The two halves of an area, the first of them the greater where its extent is
/// odd.
pub open spec fn are_halves(area: Area, direction: Direction, parts: Seq<Area>) -> bool {
    &&& parts.len() == 2
    &&& covers(area, direction, parts)
    &&& extent(parts[0], direction) == (extent(area, direction) + 1) / 2
    &&& extent(parts[1], direction) == extent(area, direction) / 2
}

/// `parts` may be what an area is divided into. There is one part for each size,
/// and across the direction each reaches as far as the area. Where the sizes
/// fit, the parts lie one after the other, each as long as its size says. Where
/// lengths do not fit, the parts still fill the area, and none is longer than
/// its size says. Two halves are met.
pub open spec fn is_division(
    area: Area,
    direction: Direction,
    sizes: Seq<Size>,
    parts: Seq<Area>,
) -> bool {
    &&& parts.len() == sizes.len()
    &&& forall|i: int|
        0 <= i < parts.len() ==> {
            &&& start(#[trigger] parts[i], across(direction)) == start(area, across(direction))
            &&& extent(parts[i], across(direction)) == extent(area, across(direction))
        }
    &&& fits(area, direction, sizes) ==> forall|i: int|
        0 <= i < parts.len() ==> {
            let spare = left_over(area, direction, sizes);
            &&& start(#[trigger] parts[i], direction) == start(area, direction) + taken(
                sizes,
                i,
                spare,
            )
            &&& extent(parts[i], direction) == reach(sizes[i], spare)
        }
    &&& overflows(area, direction, sizes) ==> {
        &&& covers(area, direction, parts)
        &&& forall|i: int|
            0 <= i < parts.len() ==> extent(#[trigger] parts[i], direction) <= reach(sizes[i], 0)
    }
    &&& start(area, direction) + extent(area, direction) <= u16::MAX && sizes == seq![
        Size::Ratio(1, 2),
        Size::Ratio(1, 2),
    ] ==> are_halves(area, direction, parts)
}

proof fn lemma_taken_shares(sizes: Seq<Size>, n: int, spare: int, at: int)
    requires
        0 <= n <= sizes.len(),
        0 <= at < sizes.len(),
        sizes[at] is Fill,
        forall|i: int| 0 <= i < sizes.len() && i != at ==> !((#[trigger] sizes[i]) is Fill),
    ensures
        taken(sizes, n, spare) == taken(sizes, n, 0) + (if at < n {
            spare
        } else {
            0
        }),
    decreases n,
{
    if n > 0 {
        lemma_taken_shares(sizes, n - 1, spare, at);
    }
}

/// Lengths and one share of what they leave fill an area, whether it has room
/// for them or not.
pub proof fn law_division_covers(
    area: Area,
    direction: Direction,
    sizes: Seq<Size>,
    parts: Seq<Area>,
    at: int,
)
    requires
        is_division(area, direction, sizes, parts),
        start(area, direction) + extent(area, direction) <= u16::MAX,
        sizes.len() <= 100,
        0 <= at < sizes.len(),
        sizes[at] is Fill,
        forall|i: int| 0 <= i < sizes.len() && i != at ==> (#[trigger] sizes[i]) is Length,
    ensures
        covers(area, direction, parts),
{
    let spare = left_over(area, direction, sizes);
    let n = sizes.len() as int;
    if spare >= 0 {
        assert(fits(area, direction, sizes));
        assert(start(parts[0], direction) == start(area, direction) + taken(sizes, 0, spare));
        lemma_taken_shares(sizes, n, spare, at);
        assert(taken(sizes, n, spare) == taken(sizes, n - 1, spare) + reach(sizes[n - 1], spare));
        assert forall|i: int, j: int| 0 <= i && j == i + 1 && j < parts.len() implies start(
            #[trigger] parts[j],
            direction,
        ) == start(#[trigger] parts[i], direction) + extent(parts[i], direction) by {
            assert(taken(sizes, j, spare) == taken(sizes, i, spare) + reach(sizes[i], spare));
        }
    } else {
        assert(overflows(area, direction, sizes));
    }
}

/// Divides an area with `ratatui::layout::Layout::split`. The solver behind it
/// gives each length its size and a share all that is left, as long as there is
/// room; where there is not it fills the area with parts that are no longer than
/// their lengths; and it meets two halves. Which of several lengths it shortens,
/// and how it settles other fractions, is not stated.
#[verifier::external_body]
pub(crate) fn split(direction: Direction, sizes: &[Size], area: Area) -> (r: Vec<Area>)
    ensures
        is_division(area, direction, sizes@, r@),
{
    let direction = match direction {
        Direction::Vertical => ratatui::layout::Direction::Vertical,
        Direction::Horizontal => ratatui::layout::Direction::Horizontal,
    };
    let sizes = sizes.iter().map(|s| match *s {
        Size::Length(n) => Constraint::Length(n),
        Size::Fill(n) => Constraint::Fill(n),
        Size::Ratio(n, d) => Constraint::Ratio(n, d),
    });
    let Area { x, y, width, height } = area;
    let parts = Layout::new(direction, sizes)
        .split(Rect { x, y, width, height });
    parts.iter().map(|p| Area { x: p.x, y: p.y, width: p.width, height: p.height }).collect()
}

/// A number one less, where there is one.
pub open spec fn less_one(n: u16) -> u16 {
    if n > 0 {
        (n - 1) as u16
    } else {
        0
    }
}

/// One after a start, but no further than the end.
pub open spec fn step_in(start: u16, extent: u16) -> u16 {
    if extent > 0 && start < u16::MAX {
        (start + 1) as u16
    } else {
        start
    }
}

/// What a border on all sides leaves of an area.
pub open spec fn within(area: Area) -> Area {
    Area {
        x: step_in(area.x, area.width),
        y: step_in(area.y, area.height),
        width: less_one(less_one(area.width)),
        height: less_one(less_one(area.height)),
    }
}

/// What a border on all sides leaves of an area, as
/// `ratatui::widgets::Block::inner` says.
#[verifier::external_body]
pub(crate) fn inner(area: Area) -> (r: Area)
    ensures
        r == within(area),
{
    let Area { x, y, width, height } = area;
    let block = Block::default().borders(Borders::ALL);
    let p = block.inner(Rect { x, y, width, height });
    Area { x: p.x, y: p.y, width: p.width, height: p.height }
}

// ── Laws ────────────────────────────────────────────────────────────────────

/// A border takes one cell off each side of an area that has room for it.
pub proof fn law_within(area: Area)
    requires
        area.width >= 2,
        area.height >= 2,
        area.x + area.width <= u16::MAX,
        area.y + area.height <= u16::MAX,
    ensures
        within(area).x == area.x + 1,
        within(area).y == area.y + 1,
        within(area).x + within(area).width == area.x + area.width - 1,
        within(area).y + within(area).height == area.y + area.height - 1,
{
}

} // verus!
