//! Areas of the screen, and how they are divided.
use vstd::prelude::*;

use ratatui::layout as tui;

verus! {

/// An area of the screen, in cells.
#[derive(Clone, Copy, Debug, PartialEq, Eq, Structural)]
pub struct Rect {
    pub x: u16,
    pub y: u16,
    pub width: u16,
    pub height: u16,
}

/// The side along which an area is divided.
#[derive(Clone, Copy, Debug, PartialEq, Eq, Structural)]
pub enum Direction {
    Horizontal,
    Vertical,
}

/// How large a part of a divided area is to be.
#[derive(Clone, Copy, Debug, PartialEq, Eq, Structural)]
pub enum Constraint {
    Length(u16),
    Min(u16),
    Percentage(u16),
}

/// `a + b`, or the largest `u16` where that is larger.
pub open spec fn capped_sum(a: u16, b: u16) -> u16 {
    if a + b > u16::MAX {
        u16::MAX
    } else {
        (a + b) as u16
    }
}

/// `area` without a margin at each side; nothing where the margins do not fit.
pub open spec fn inner_of(area: Rect, horizontal: u16, vertical: u16) -> Rect {
    if area.width < capped_sum(horizontal, horizontal) || area.height < capped_sum(
        vertical,
        vertical,
    ) {
        Rect { x: 0, y: 0, width: 0, height: 0 }
    } else {
        Rect {
            x: capped_sum(area.x, horizontal),
            y: capped_sum(area.y, vertical),
            width: (area.width - capped_sum(horizontal, horizontal)) as u16,
            height: (area.height - capped_sum(vertical, vertical)) as u16,
        }
    }
}

/// `ratatui::layout::Rect::inner` takes the margin off each side of the area. Where
/// twice a margin is more than the area has, the result is the empty area at the
/// origin; sums that exceed `u16` are capped. The contract claims just that.
#[verifier::external_body]
pub(crate) fn inner(area: Rect, horizontal: u16, vertical: u16) -> (rest: Rect)
    ensures
        rest == inner_of(area, horizontal, vertical),
{
    let whole = tui::Rect { x: area.x, y: area.y, width: area.width, height: area.height };
    let rest = whole.inner(tui::Margin { horizontal, vertical });
    Rect { x: rest.x, y: rest.y, width: rest.width, height: rest.height }
}

/// `parts` divide `area` along `direction` into one part for each constraint:
/// each lies inside the area, and across the direction it extends as far as the
/// area does.
pub open spec fn divides(
    area: Rect,
    direction: Direction,
    constraints: Seq<Constraint>,
    parts: Seq<Rect>,
) -> bool {
    &&& parts.len() == constraints.len()
    &&& forall|i: int|
        0 <= i < parts.len() ==> match direction {
            Direction::Horizontal => {
                &&& (#[trigger] parts[i]).y == area.y && parts[i].height == area.height
                &&& area.x <= parts[i].x
                &&& parts[i].x + parts[i].width <= capped_sum(area.x, area.width)
            },
            Direction::Vertical => {
                &&& parts[i].x == area.x && parts[i].width == area.width
                &&& area.y <= parts[i].y
                &&& parts[i].y + parts[i].height <= capped_sum(area.y, area.height)
            },
        }
}

/// Where an area starts along a direction.
pub open spec fn near(direction: Direction, area: Rect) -> int {
    match direction {
        Direction::Horizontal => area.x as int,
        Direction::Vertical => area.y as int,
    }
}

/// How far an area extends along a direction.
pub open spec fn span(direction: Direction, area: Rect) -> int {
    match direction {
        Direction::Horizontal => area.width as int,
        Direction::Vertical => area.height as int,
    }
}

/// How much of an area can be addressed along a direction.
pub open spec fn room(direction: Direction, area: Rect) -> int {
    match direction {
        Direction::Horizontal => capped_sum(area.x, area.width) - area.x,
        Direction::Vertical => capped_sum(area.y, area.height) - area.y,
    }
}

/// The number in a constraint.
pub open spec fn amount(constraint: Constraint) -> int {
    match constraint {
        Constraint::Length(n) => n as int,
        Constraint::Min(n) => n as int,
        Constraint::Percentage(n) => n as int,
    }
}

/// The sum of the numbers in constraints.
pub open spec fn total(constraints: Seq<Constraint>) -> int
    decreases constraints.len(),
{
    if constraints.len() == 0 {
        0
    } else {
        total(constraints.drop_last()) + amount(constraints.last())
    }
}

/// The constraint at `k` is a least length, and all others are lengths.
pub open spec fn lengths_but_at(constraints: Seq<Constraint>, k: int) -> bool {
    &&& 0 <= k < constraints.len()
    &&& constraints[k] is Min
    &&& forall|i: int|
        0 <= i < constraints.len() && i != k ==> (#[trigger] constraints[i]) is Length
}

/// Every constraint is a percentage, and together they are the whole.
pub open spec fn percentages_of_whole(constraints: Seq<Constraint>) -> bool {
    &&& forall|i: int|
        0 <= i < constraints.len() ==> (#[trigger] constraints[i]) is Percentage
    &&& total(constraints) == 100
}

/// `percent` of `whole`, rounded to the nearest cell, halves up.
pub open spec fn share(percent: int, whole: int) -> int {
    (percent * whole + 50) / 100
}

/// The first part starts where the area does, and every other where the part
/// before it ends.
pub open spec fn abut(area: Rect, direction: Direction, parts: Seq<Rect>) -> bool {
    &&& parts.len() > 0 ==> near(direction, parts[0]) == near(direction, area)
    &&& forall|i: int, j: int|
        0 <= i && j == i + 1 && j < parts.len() ==> near(direction, #[trigger] parts[j]) == near(
            direction,
            #[trigger] parts[i],
        ) + span(direction, parts[i])
}

/// The parts end where the area does.
pub open spec fn fill(area: Rect, direction: Direction, parts: Seq<Rect>) -> bool {
    parts.len() > 0 ==> near(direction, parts.last()) + span(direction, parts.last()) == near(
        direction,
        area,
    ) + room(direction, area)
}

/// `parts` keep all lengths, and the part at `k` has what they leave.
pub open spec fn spread(
    area: Rect,
    direction: Direction,
    constraints: Seq<Constraint>,
    parts: Seq<Rect>,
    k: int,
) -> bool {
    &&& abut(area, direction, parts)
    &&& fill(area, direction, parts)
    &&& forall|i: int|
        0 <= i < constraints.len() && i != k ==> span(direction, #[trigger] parts[i]) == amount(
            constraints[i],
        )
    &&& span(direction, parts[k]) == room(direction, area) - total(constraints) + amount(
        constraints[k],
    )
}

/// `parts` share an area that is too small for the constraints: none is longer
/// than its length, and the part at `k` keeps its least length, or has the whole
/// area where that is less. A least length counts only up to the largest `i16`.
pub open spec fn squeezed(
    area: Rect,
    direction: Direction,
    constraints: Seq<Constraint>,
    parts: Seq<Rect>,
    k: int,
) -> bool {
    &&& abut(area, direction, parts)
    &&& fill(area, direction, parts)
    &&& forall|i: int|
        0 <= i < constraints.len() && i != k ==> span(direction, #[trigger] parts[i]) <= amount(
            constraints[i],
        )
    &&& amount(constraints[k]) <= i16::MAX ==> span(direction, parts[k]) == if amount(
        constraints[k],
    ) <= room(direction, area) {
        amount(constraints[k])
    } else {
        room(direction, area)
    }
}

/// `parts` stand where the constraints put them. Where all are lengths but for
/// one least length, the parts abut and fill the area: they are spread out where
/// there is room for all, and squeezed where there is not. Where all are
/// percentages of the whole, each part lies between the shares of the area that
/// the percentages before and up to it add up to.
pub open spec fn placed(
    area: Rect,
    direction: Direction,
    constraints: Seq<Constraint>,
    parts: Seq<Rect>,
) -> bool {
    &&& forall|k: int| #[trigger]
        lengths_but_at(constraints, k) ==> if total(constraints) <= room(direction, area) {
            spread(area, direction, constraints, parts, k)
        } else {
            constraints.len() < 100 ==> squeezed(area, direction, constraints, parts, k)
        }
    &&& percentages_of_whole(constraints) ==> forall|i: int|
        0 <= i < constraints.len() ==> {
            &&& near(direction, #[trigger] parts[i]) == near(direction, area) + share(
                total(constraints.take(i)),
                room(direction, area),
            )
            &&& near(direction, parts[i]) + span(direction, parts[i]) == near(direction, area)
                + share(total(constraints.take(i + 1)), room(direction, area))
        }
}

/// Whether `ratatui::layout::Layout::split`, asked to divide `area` along `direction`
/// by `constraints`, may give `parts`. It is a relation and no function: where
/// the constraints do not fit, several divisions are equally good, and the
/// solver pivots in the order in which hash maps with a seed of their own are
/// walked.
pub uninterp spec fn may_split_into(
    area: Rect,
    direction: Direction,
    constraints: Seq<Constraint>,
    parts: Seq<Rect>,
) -> bool;

/// `ratatui::layout::Layout::split` divides an area along a direction. The contract
/// claims that the parts are among those it may give; that there is one for each
/// constraint; that across the direction each extends as far as the area; and
/// that along the direction it lies between the ends of the area, as the
/// solver's required constraints have it.
///
/// Of lengths around one least length, and of percentages of the whole, it claims
/// where the parts lie, as the strengths of the solver's constraints have it:
/// that gaps are empty outweighs a least length, that outweighs a length or a
/// percentage, these outweigh the growth of a least length, and that outweighs
/// the gap at the end. The solver counts in hundredths of a cell, so that where
/// lengths are cut short, fewer than a hundred parts still meet in the same cell.
///
/// Left unsaid is which lengths are cut, and by how much: several ways are
/// equally good. So are the places in lists of any other make.
#[verifier::external_body]
pub(crate) fn split(area: Rect, direction: Direction, constraints: &Vec<Constraint>) -> (parts: Vec<
    Rect,
>)
    ensures
        may_split_into(area, direction, constraints@, parts@),
        divides(area, direction, constraints@, parts@),
        placed(area, direction, constraints@, parts@),
{
    let whole = tui::Rect { x: area.x, y: area.y, width: area.width, height: area.height };
    let along = match direction {
        Direction::Horizontal => tui::Direction::Horizontal,
        Direction::Vertical => tui::Direction::Vertical,
    };
    let sizes = constraints.iter().map(|c| match *c {
        Constraint::Length(n) => tui::Constraint::Length(n),
        Constraint::Min(n) => tui::Constraint::Min(n),
        Constraint::Percentage(n) => tui::Constraint::Percentage(n),
    });
    let parts = tui::Layout::default().direction(along).constraints(sizes).split(whole);
    parts.iter().map(|p| Rect { x: p.x, y: p.y, width: p.width, height: p.height }).collect()
}

/// Parts that abut do not overlap: what stands later in the list starts where
/// the earlier part ends, or beyond.
pub proof fn abutting_parts_do_not_overlap(
    area: Rect,
    direction: Direction,
    parts: Seq<Rect>,
    i: int,
    j: int,
)
    requires
        abut(area, direction, parts),
        0 <= i < j < parts.len(),
    ensures
        near(direction, parts[i]) + span(direction, parts[i]) <= near(direction, parts[j]),
    decreases j - i,
{
    if j == i + 1 {
        assert(near(direction, parts[j]) == near(direction, parts[i]) + span(direction, parts[i]));
    } else {
        abutting_parts_do_not_overlap(area, direction, parts, i, j - 1);
        let middle = parts[j - 1];
        assert(near(direction, parts[j]) == near(direction, middle) + span(direction, middle));
    }
}

/// Margins that fit, in an area whose corners can be addressed, come off at each of
/// the four sides; margins that do not fit leave nothing.
pub proof fn margins_come_off_each_side(area: Rect, horizontal: u16, vertical: u16)
    requires
        area.x + area.width <= u16::MAX,
        area.y + area.height <= u16::MAX,
    ensures
        ({
            let rest = inner_of(area, horizontal, vertical);
            if 2 * horizontal <= area.width && 2 * vertical <= area.height {
                &&& rest.x == area.x + horizontal
                &&& rest.y == area.y + vertical
                &&& rest.x + rest.width == area.x + area.width - horizontal
                &&& rest.y + rest.height == area.y + area.height - vertical
            } else {
                rest.width == 0 || rest.height == 0
            }
        }),
{
}

} // verus!
