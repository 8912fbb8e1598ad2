//! Placing the status popup: a rectangle in the middle of the screen, found
//! by splitting the screen in three parts twice with the layout engine of
//! `ratatui`.

use vstd::prelude::*;
use ratatui::layout::{Constraint, Direction, Layout, Rect};

verus! {

/// A rectangular area of the screen, in character cells.
#[derive(Clone, Copy, PartialEq, Eq, Debug, Structural)]
pub struct Area {
    pub x: u16,
    pub y: u16,
    pub width: u16,
    pub height: u16,
}

/// The direction in which an area is split.
#[derive(Clone, Copy, PartialEq, Eq, Debug, Structural)]
pub enum Axis {
    /// Into parts side by side.
    Horizontal,
    /// Into parts one below the other.
    Vertical,
}

/// Whether `r` lies within `area`: it begins no earlier and ends no later,
/// in columns and in rows.
pub open spec fn lies_within(r: Area, area: Area) -> bool {
    &&& area.x <= r.x
    &&& r.x + r.width <= area.x + area.width
    &&& area.y <= r.y
    &&& r.y + r.height <= area.y + area.height
}

/// What holds of every split of `area` into `n` parts along `axis`: there
/// are `n` parts. Across the axis each part spans the area: parts one below
/// the other are as wide as the area, parts side by side as high. Along the
/// axis each part begins and ends within the area.
pub open spec fn is_split(axis: Axis, area: Area, n: nat, parts: Seq<Area>) -> bool {
    &&& parts.len() == n
    &&& forall|i: int|
        0 <= i < parts.len() ==> match axis {
            Axis::Vertical => {
                &&& (#[trigger] parts[i]).x == area.x
                &&& parts[i].width == area.width
                &&& area.y <= parts[i].y
                &&& parts[i].y + parts[i].height <= area.y + area.height
            },
            Axis::Horizontal => {
                &&& (#[trigger] parts[i]).y == area.y
                &&& parts[i].height == area.height
                &&& area.x <= parts[i].x
                &&& parts[i].x + parts[i].width <= area.x + area.width
            },
        }
}

/// Splits an area by `ratatui::layout::Layout::split`, with a layout of the
/// given direction, one percentage constraint for each entry, and no margin.
/// Assumed, not proved, of every answer of the layout engine:
/// - there is one part for each constraint;
/// - across the direction of the split each part has the position and the
///   size of the area: the engine copies them from the area when it turns
///   the solver's result into rectangles;
/// - along the direction each part begins and ends within the area: the
///   engine binds every variable between the start and the end of the area
///   by constraints of required strength, rounds the solver's values, and
///   takes as a part's size the end less the start, or zero. This rests on
///   the solver meeting its required constraints.
/// Where within the area the parts lie is the solver's answer, of which
/// nothing more is claimed.
#[verifier::external_body]
fn split_by_percentages(axis: Axis, area: Area, percentages: &Vec<u16>) -> (parts: Vec<Area>)
    ensures
        is_split(axis, area, percentages@.len(), parts@),
{
    let direction = match axis {
        Axis::Horizontal => Direction::Horizontal,
        Axis::Vertical => Direction::Vertical,
    };
    let whole = Rect { x: area.x, y: area.y, width: area.width, height: area.height };
    let constraints = percentages.iter().map(|p| Constraint::Percentage(*p));
    let parts = Layout::default().direction(direction).constraints(constraints).split(whole);
    parts.iter().map(|r| Area { x: r.x, y: r.y, width: r.width, height: r.height }).collect()
}

/// The percentages that put a part of `percent` per cent in the middle: the
/// rest, halved, before it and after it.
pub open spec fn centering(percent: u16) -> Seq<u16> {
    seq![((100 - percent) / 2) as u16, percent, ((100 - percent) / 2) as u16]
}

/// The percentages that put a part of `percent` per cent in the middle.
pub fn centering_percentages(percent: u16) -> (r: Vec<u16>)
    requires
        percent <= 100,
    ensures
        r@ == centering(percent),
{
    let side: u16 = (100 - percent) / 2;
    let mut r: Vec<u16> = Vec::new();
    r.push(side);
    r.push(percent);
    r.push(side);
    assert(r@ =~= centering(percent));
    r
}

/// The middle one of three parts.
pub fn middle_part(parts: &Vec<Area>) -> (r: Area)
    requires
        parts@.len() == 3,
    ensures
        r == parts@[1],
{
    parts[1]
}

/// What holds of the popup area for `area`, whatever the layout engine
/// answers: it is the middle column of the middle row, for some split of
/// `area` into three rows and of the middle row into three columns.
pub open spec fn is_centered_in(area: Area, r: Area) -> bool {
    exists|rows: Seq<Area>, columns: Seq<Area>|
        #![trigger is_split(Axis::Vertical, area, 3, rows), is_split(Axis::Horizontal, rows[1], 3, columns)]
        {
            &&& is_split(Axis::Vertical, area, 3, rows)
            &&& is_split(Axis::Horizontal, rows[1], 3, columns)
            &&& r == columns[1]
        }
}

/// The middle column of the middle row of an area lies within the area.
pub proof fn lemma_centered_lies_within(area: Area, r: Area)
    requires
        is_centered_in(area, r),
    ensures
        lies_within(r, area),
{
    let (rows, columns) = choose|rows: Seq<Area>, columns: Seq<Area>|
        #![trigger is_split(Axis::Vertical, area, 3, rows), is_split(Axis::Horizontal, rows[1], 3, columns)]
        {
            &&& is_split(Axis::Vertical, area, 3, rows)
            &&& is_split(Axis::Horizontal, rows[1], 3, columns)
            &&& r == columns[1]
        };
    let row = rows[1];
    assert(row.x == area.x && row.width == area.width);
    assert(area.y <= row.y && row.y + row.height <= area.y + area.height);
    assert(columns[1].y == row.y && columns[1].height == row.height);
}

/// The area of a popup in the middle of `area`: `percent_y` per cent of its
/// rows, and of those `percent_x` per cent of the columns. The area is split
/// into three rows by the percentages `centering(percent_y)`, and its middle
/// row into three columns by `centering(percent_x)`. The popup lies within
/// `area`; where within it is the layout engine's answer.
pub fn centered_rect(percent_x: u16, percent_y: u16, area: Area) -> (r: Area)
    requires
        percent_x <= 100,
        percent_y <= 100,
    ensures
        is_centered_in(area, r),
        lies_within(r, area),
{
    let rows = split_by_percentages(Axis::Vertical, area, &centering_percentages(percent_y));
    let row = middle_part(&rows);
    let columns = split_by_percentages(Axis::Horizontal, row, &centering_percentages(percent_x));
    let r = middle_part(&columns);
    proof {
        assert(is_split(Axis::Vertical, area, 3, rows@) && is_split(
            Axis::Horizontal,
            rows@[1],
            3,
            columns@,
        ));
        lemma_centered_lies_within(area, r);
    }
    r
}

} // verus!
