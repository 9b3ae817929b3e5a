//! Placing the terminal interface's popup: a rectangle of given
//! percentages centred in the screen, laid out by ratatui's constraint
//! solver.
use vstd::prelude::*;

verus! {

/// A rectangle of terminal cells: its top-left corner and its size.
#[derive(Debug, Clone, Copy, PartialEq, Eq, Structural)]
pub struct Area {
    pub x: u16,
    pub y: u16,
    pub width: u16,
    pub height: u16,
}

impl View for Area {
    type V = (u16, u16, u16, u16);

    open spec fn view(&self) -> (u16, u16, u16, u16) {
        (self.x, self.y, self.width, self.height)
    }
}

/// Name for the rectangles that ratatui's `Layout::split` gives for
/// `area` (as `(x, y, width, height)`) split top to bottom (`vertical`) or
/// left to right into parts of the given percentages.
pub uninterp spec fn split_percentages(vertical: bool, percents: Seq<u16>, area: (
    u16,
    u16,
    u16,
    u16,
)) -> Seq<(u16, u16, u16, u16)>;

/// ratatui's `Layout::default().direction(..).constraints(..).split(area)`
/// with one `Constraint::Percentage` per entry of `percents`. The
/// rectangles come from its constraint solver and depend on the direction,
/// the percentages and the area alone, so they are named
/// `split_percentages`; the source gives one rectangle per constraint.
#[verifier::external_body]
fn layout_split(vertical: bool, percents: &Vec<u16>, area: Area) -> (r: Vec<Area>)
    ensures
        r@.map_values(|a: Area| a@) == split_percentages(vertical, percents@, area@),
        r@.len() == percents@.len(),
{
    let direction = if vertical {
        ratatui::layout::Direction::Vertical
    } else {
        ratatui::layout::Direction::Horizontal
    };
    let constraints = percents.iter().map(|p| ratatui::layout::Constraint::Percentage(*p));
    let rect = ratatui::layout::Rect { x: area.x, y: area.y, width: area.width, height: area.height };
    let parts = ratatui::layout::Layout::default().direction(direction).constraints(constraints).split(rect);
    parts.iter().map(|p| Area { x: p.x, y: p.y, width: p.width, height: p.height }).collect()
}

/// The percentages of a centred part: equal margins on both sides of
/// `percent`.
pub open spec fn centred_percents(percent: u16) -> Seq<u16> {
    let margin = ((100 - percent) / 2) as u16;
    seq![margin, percent, margin]
}

/// The rectangle that `centered_rect` gives: the middle row of `r` split
/// by `percent_y`, then the middle column of that row split by
/// `percent_x`.
pub open spec fn centred_area(percent_x: u16, percent_y: u16, r: (u16, u16, u16, u16)) -> (
    u16,
    u16,
    u16,
    u16,
) {
    let row = split_percentages(true, centred_percents(percent_y), r)[1];
    split_percentages(false, centred_percents(percent_x), row)[1]
}

/// The three percentages for a centred part of `percent`.
fn centred_constraints(percent: u16) -> (v: Vec<u16>)
    requires
        percent <= 100,
    ensures
        v@ == centred_percents(percent),
{
    let margin = (100 - percent) / 2;
    let mut v: Vec<u16> = Vec::new();
    v.push(margin);
    v.push(percent);
    v.push(margin);
    assert(v@ =~= centred_percents(percent));
    v
}

/// A rectangle of `percent_x` of the width and `percent_y` of the height
/// of `r`, centred in it.
pub fn centered_rect(percent_x: u16, percent_y: u16, r: Area) -> (a: Area)
    requires
        percent_x <= 100,
        percent_y <= 100,
    ensures
        a@ == centred_area(percent_x, percent_y, r@),
{
    let rows = layout_split(true, &centred_constraints(percent_y), r);
    let row = rows[1];
    assert(rows@.map_values(|a: Area| a@)[1] == row@);
    let columns = layout_split(false, &centred_constraints(percent_x), row);
    let a = columns[1];
    assert(columns@.map_values(|c: Area| c@)[1] == a@);
    a
}

} // verus!
