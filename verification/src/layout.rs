//! Where the widgets stand on the screen. The screen is split by the
//! layout solver of the `tui` crate; this module decides what is split and
//! which part goes to which widget.

use tui::layout::{
    Constraint as TuiConstraint, Direction as TuiDirection, Layout, Rect as TuiRect,
};
use vstd::prelude::*;

verus! {

/// A rectangle of character cells.
#[derive(Debug, Clone, Copy, PartialEq, Eq, Structural)]
pub struct Rect {
    pub x: u16,
    pub y: u16,
    pub width: u16,
    pub height: u16,
}

/// The axis along which an area is split.
#[derive(Debug, Clone, Copy, PartialEq, Eq, Structural)]
pub enum Direction {
    Horizontal,
    Vertical,
}

/// The share of an area that a part asks for.
#[derive(Debug, Clone, Copy, PartialEq, Eq, Structural)]
pub enum Constraint {
    /// So many hundredths of the area.
    Percentage(u16),
    /// The fraction of the area given by numerator and denominator.
    Ratio(u32, u32),
}

/// The areas of the three widgets.
#[derive(Debug, Clone, Copy, PartialEq, Eq, Structural)]
pub struct WidgetAreas {
    pub cpu_and_mem: Rect,
    pub misc_info: Rect,
    pub proc: Rect,
}

/// The right and bottom edges of the area are coordinates of the screen.
pub open spec fn fits(area: Rect) -> bool {
    area.x + area.width <= u16::MAX && area.y + area.height <= u16::MAX
}

/// The length of the area along the axis.
pub open spec fn extent(direction: Direction, area: Rect) -> u16 {
    match direction {
        Direction::Horizontal => area.width,
        Direction::Vertical => area.height,
    }
}

/// The solver can take the constraint for a length of `extent` cells: a
/// percentage times the length stays a 16-bit number, and a ratio has a
/// denominator.
pub open spec fn solvable(constraint: Constraint, extent: u16) -> bool {
    match constraint {
        Constraint::Percentage(percent) => percent * extent <= u16::MAX,
        Constraint::Ratio(_, denominator) => denominator != 0,
    }
}

/// The solver can split the area by these constraints.
pub open spec fn splittable(
    direction: Direction,
    constraints: Seq<Constraint>,
    area: Rect,
) -> bool {
    &&& fits(area)
    &&& forall|i: int|
        0 <= i < constraints.len() ==> solvable(#[trigger] constraints[i], extent(direction, area))
}

/// Calls `tui::layout::Layout::split` on a layout without margin. Claimed
/// of it: called with an area whose edges are screen coordinates, with
/// percentages whose product with the split length fits 16 bits and with
/// ratios that have a denominator, it returns, and it returns one
/// rectangle for each constraint. Nothing is claimed of the rectangles.
#[verifier::external_body]
fn split(direction: Direction, constraints: &Vec<Constraint>, area: Rect) -> (chunks: Vec<Rect>)
    requires
        splittable(direction, constraints@, area),
    ensures
        chunks.len() == constraints.len(),
{
    let parts: Vec<TuiConstraint> = constraints.iter().map(|c| match *c {
        Constraint::Percentage(p) => TuiConstraint::Percentage(p),
        Constraint::Ratio(n, d) => TuiConstraint::Ratio(n, d),
    }).collect();
    let axis = match direction {
        Direction::Horizontal => TuiDirection::Horizontal,
        Direction::Vertical => TuiDirection::Vertical,
    };
    let whole = TuiRect { x: area.x, y: area.y, width: area.width, height: area.height };
    let chunks = Layout::default().direction(axis).constraints(parts).split(whole);
    chunks.iter().map(|r| Rect { x: r.x, y: r.y, width: r.width, height: r.height }).collect()
}

fn can_split(direction: Direction, constraints: &Vec<Constraint>, area: Rect) -> (can: bool)
    ensures
        can == splittable(direction, constraints@, area),
{
    if area.x > u16::MAX - area.width || area.y > u16::MAX - area.height {
        return false;
    }
    let length = match direction {
        Direction::Horizontal => area.width,
        Direction::Vertical => area.height,
    };
    let mut i: usize = 0;
    while i < constraints.len()
        invariant
            i <= constraints.len(),
            length == extent(direction, area),
            fits(area),
            forall|k: int| 0 <= k < i ==> solvable(#[trigger] constraints@[k], length),
        decreases constraints.len() - i,
    {
        let good = match constraints[i] {
            Constraint::Percentage(percent) => {
                assert(percent * length <= 0xffff * 0xffff) by (nonlinear_arith)
                    requires
                        percent <= 0xffff,
                        length <= 0xffff,
                ;
                percent as u32 * length as u32 <= u16::MAX as u32
            },
            Constraint::Ratio(_, denominator) => denominator != 0,
        };
        if !good {
            return false;
        }
        i += 1;
    }
    true
}

/// Splits `area` along `direction` into one rectangle for each
/// constraint, in order. Where the solver cannot take the area or a
/// constraint, nothing is split.
pub fn split_area(direction: Direction, constraints: &Vec<Constraint>, area: Rect) -> (chunks:
    Option<Vec<Rect>>)
    ensures
        chunks is Some <==> splittable(direction, constraints@, area),
        chunks matches Some(parts) ==> parts.len() == constraints.len(),
{
    if can_split(direction, constraints, area) {
        Some(split(direction, constraints, area))
    } else {
        None
    }
}

/// The constraints of two equal halves.
pub fn halves() -> (constraints: Vec<Constraint>)
    ensures
        constraints@ == seq![Constraint::Ratio(1, 2), Constraint::Ratio(1, 2)],
{
    let mut constraints: Vec<Constraint> = Vec::new();
    constraints.push(Constraint::Ratio(1, 2));
    constraints.push(Constraint::Ratio(1, 2));
    constraints
}

/// The constraint of one part that takes everything.
pub fn whole() -> (constraints: Vec<Constraint>)
    ensures
        constraints@ == seq![Constraint::Percentage(100)],
{
    let mut constraints: Vec<Constraint> = Vec::new();
    constraints.push(Constraint::Percentage(100));
    constraints
}

/// `inner` lies inside `outer`.
pub open spec fn inside(outer: Rect, inner: Rect) -> bool {
    &&& outer.x <= inner.x
    &&& inner.x + inner.width <= outer.x + outer.width
    &&& outer.y <= inner.y
    &&& inner.y + inner.height <= outer.y + outer.height
}

/// The widgets stand arranged in `frame`: every area lies inside the
/// frame, the processor and memory widget ends above the line where the
/// other two begin, and the host information ends left of the column
/// where the process list begins.
pub open spec fn arranged(frame: Rect, areas: WidgetAreas) -> bool {
    &&& inside(frame, areas.cpu_and_mem)
    &&& inside(frame, areas.misc_info)
    &&& inside(frame, areas.proc)
    &&& areas.cpu_and_mem.y + areas.cpu_and_mem.height <= areas.misc_info.y
    &&& areas.cpu_and_mem.y + areas.cpu_and_mem.height <= areas.proc.y
    &&& areas.misc_info.x + areas.misc_info.width <= areas.proc.x
}

/// The areas that the parts of the two rows give: the one part of the
/// upper row for the processor and memory widget, the two parts of the
/// lower row for the host information and the process list. There are
/// none where the rows do not have so many parts, or where the parts do
/// not stand arranged in `frame`.
pub open spec fn picked(frame: Rect, top: Seq<Rect>, bottom: Seq<Rect>) -> Option<WidgetAreas> {
    if top.len() == 1 && bottom.len() == 2 && arranged(
        frame,
        WidgetAreas { cpu_and_mem: top[0], misc_info: bottom[0], proc: bottom[1] },
    ) {
        Some(WidgetAreas { cpu_and_mem: top[0], misc_info: bottom[0], proc: bottom[1] })
    } else {
        None
    }
}

fn lies_inside(outer: Rect, inner: Rect) -> (yes: bool)
    ensures
        yes == inside(outer, inner),
{
    outer.x <= inner.x && inner.x as u32 + inner.width as u32 <= outer.x as u32
        + outer.width as u32 && outer.y <= inner.y && inner.y as u32 + inner.height as u32
        <= outer.y as u32 + outer.height as u32
}

/// Picks the areas of the widgets from the parts into which the solver
/// has split the upper and the lower row, and holds them against the
/// frame: what the solver hands back is used only where it is a layout.
pub fn pick_areas(frame: Rect, top: &Vec<Rect>, bottom: &Vec<Rect>) -> (areas: Option<
    WidgetAreas,
>)
    ensures
        areas == picked(frame, top@, bottom@),
{
    if top.len() != 1 || bottom.len() != 2 {
        return None;
    }
    let cpu_and_mem = top[0];
    let misc_info = bottom[0];
    let proc = bottom[1];
    let upper_end = cpu_and_mem.y as u32 + cpu_and_mem.height as u32;
    if lies_inside(frame, cpu_and_mem) && lies_inside(frame, misc_info) && lies_inside(
        frame,
        proc,
    ) && upper_end <= misc_info.y as u32 && upper_end <= proc.y as u32 && misc_info.x as u32
        + misc_info.width as u32 <= proc.x as u32 {
        Some(WidgetAreas { cpu_and_mem, misc_info, proc })
    } else {
        None
    }
}

/// The areas of the widgets on a screen of size `frame`: the screen is
/// halved into an upper and a lower row, the upper row goes whole to the
/// processor and memory widget, and the lower row is halved between the
/// host information on the left and the process list on the right. The
/// solver decides the sizes. Where it cannot take an area on the way, or
/// hands back parts that do not stand arranged in the frame, there is no
/// layout; that is always so where the edges of `frame` are no screen
/// coordinates.
pub fn widget_areas(frame: Rect) -> (areas: Option<WidgetAreas>)
    ensures
        areas is Some ==> fits(frame),
        areas matches Some(placed) ==> arranged(frame, placed),
{
    let rows = match split_area(Direction::Vertical, &halves(), frame) {
        Some(rows) => rows,
        None => {
            return None;
        },
    };
    let top = match split_area(Direction::Horizontal, &whole(), rows[0]) {
        Some(top) => top,
        None => {
            return None;
        },
    };
    let bottom = match split_area(Direction::Horizontal, &halves(), rows[1]) {
        Some(bottom) => bottom,
        None => {
            return None;
        },
    };
    pick_areas(frame, &top, &bottom)
}

} // verus!
