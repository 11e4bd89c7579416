use vstd::prelude::*;

use crate::forms::{ImageSearchFormSection, SearchFormSection};
use ratatui::layout::{Constraint, Direction, Layout, Rect};

verus! {

/// A rectangle of terminal cells.
#[derive(Clone, Copy, Debug, PartialEq, Eq, Structural)]
pub struct Area {
    pub x: u16,
    pub y: u16,
    pub width: u16,
    pub height: u16,
}

/// The direction a layout stacks its parts in.
#[derive(Clone, Copy, Debug, PartialEq, Eq, Structural)]
pub enum Axis {
    Vertical,
    Horizontal,
}

/// How one part of a layout is sized.
#[derive(Clone, Copy, Debug, PartialEq, Eq, Structural)]
pub enum SizeRule {
    Length(u16),
    Min(u16),
    Percentage(u16),
}

/// Splits an area with ratatui's `Layout::split`. Claimed: one part per rule
/// (the solver builds one segment per constraint). Where the parts lie is not
/// stated: the solver walks hash maps seeded per process while it resolves
/// ties, so equal arguments are not shown to give equal parts.
#[verifier::external_body]
fn split_area(axis: Axis, rules: &Vec<SizeRule>, area: Area) -> (r: Vec<Area>)
    ensures
        r@.len() == rules@.len(),
{
    let direction = match axis {
        Axis::Vertical => Direction::Vertical,
        Axis::Horizontal => Direction::Horizontal,
    };
    let constraints = rules.iter().map(|r| match *r {
        SizeRule::Length(n) => Constraint::Length(n),
        SizeRule::Min(n) => Constraint::Min(n),
        SizeRule::Percentage(n) => Constraint::Percentage(n),
    });
    let rect = Rect::new(area.x, area.y, area.width, area.height);
    let parts = Layout::default().direction(direction).constraints(constraints).split(rect);
    parts.iter().map(|p| Area { x: p.x, y: p.y, width: p.width, height: p.height }).collect()
}

/// An area shrunk by one cell on every side (to nothing where it is too small).
pub open spec fn inset(a: Area) -> Area {
    Area {
        x: if a.x < u16::MAX { (a.x + 1) as u16 } else { u16::MAX },
        y: if a.y < u16::MAX { (a.y + 1) as u16 } else { u16::MAX },
        width: if a.width >= 2 { (a.width - 2) as u16 } else { 0 },
        height: if a.height >= 2 { (a.height - 2) as u16 } else { 0 },
    }
}

/// The screen's rows: header, body (at least ten rows) and footer.
pub open spec fn screen_rows() -> Seq<SizeRule> {
    seq![SizeRule::Length(3), SizeRule::Min(10), SizeRule::Length(3)]
}

/// The image tab's body: a two-row bar above the panels.
pub open spec fn image_body_rows() -> Seq<SizeRule> {
    seq![SizeRule::Length(2), SizeRule::Min(0)]
}

/// The image tab's two panels, side by side.
pub open spec fn image_panels() -> Seq<SizeRule> {
    seq![SizeRule::Percentage(50), SizeRule::Percentage(50)]
}

fn inset_area(a: Area) -> (r: Area)
    ensures
        r == inset(a),
{
    Area {
        x: a.x.saturating_add(1),
        y: a.y.saturating_add(1),
        width: a.width.saturating_sub(2),
        height: a.height.saturating_sub(2),
    }
}

/// The area the image is drawn in, given the image tab's two panels as the
/// layout cut them: inside the border of the left one.
pub fn image_area_in_panels(panels: &Vec<Area>) -> (r: Area)
    requires
        panels@.len() >= 1,
    ensures
        r == inset(panels@[0]),
{
    inset_area(panels[0])
}

/// The area the image is drawn in, for a terminal of the given size: the
/// screen is cut into header, body and footer, the body into a bar and the
/// panels, the panels into two halves, and the image goes inside the border
/// of the left half (see `image_area_in_panels`).
pub fn image_protocol_area_for_size(cols: u16, rows: u16) -> (r: Area)
    ensures
        exists|left: Area| r == #[trigger] inset(left),
{
    let screen = Area { x: 0, y: 0, width: cols, height: rows };
    let outer = split_area(Axis::Vertical, &vec![SizeRule::Length(3), SizeRule::Min(10), SizeRule::Length(3)], screen);
    let image_area = split_area(Axis::Vertical, &vec![SizeRule::Length(2), SizeRule::Min(0)], outer[1]);
    let main = split_area(Axis::Horizontal, &vec![SizeRule::Percentage(50), SizeRule::Percentage(50)], image_area[1]);
    image_area_in_panels(&main)
}

/// Three parts: a margin, the given share, and a margin, each margin half of
/// what the share leaves.
pub open spec fn centered_shares(percent: u16) -> Seq<SizeRule> {
    let margin = ((100 - percent) / 2) as u16;
    seq![SizeRule::Percentage(margin), SizeRule::Percentage(percent), SizeRule::Percentage(margin)]
}

fn centered_rules(percent: u16) -> (r: Vec<SizeRule>)
    requires
        percent <= 100,
    ensures
        r@ == centered_shares(percent),
{
    let margin = (100 - percent) / 2;
    let r = vec![SizeRule::Percentage(margin), SizeRule::Percentage(percent), SizeRule::Percentage(margin)];
    assert(r@ =~= centered_shares(percent));
    r
}

/// The area of a popup that takes the given percentages of `r`, centred: the
/// middle of three rows sized by `centered_shares(percent_y)`, then the middle
/// of three columns of that row sized by `centered_shares(percent_x)`. Which
/// cells the layout gives those parts is the solver's and is not stated.
pub fn centered_rect(percent_x: u16, percent_y: u16, r: Area) -> (a: Area)
    requires
        percent_x <= 100,
        percent_y <= 100,
{
    let rows = split_area(Axis::Vertical, &centered_rules(percent_y), r);
    let cols = split_area(Axis::Horizontal, &centered_rules(percent_x), rows[1]);
    cols[1]
}

/// The heights of a search popup's boxes: three rows each, the focused one
/// taking what the popup has beyond them and the two-row help line (as far as
/// a `u16` goes), then the help line.
pub open spec fn modal_heights(boxes: nat, focused: nat, total_height: u16) -> Seq<SizeRule> {
    let collapsed = 3 * boxes + 2;
    let extra = if total_height >= collapsed { total_height - collapsed } else { 0 };
    let grown = if 3 + extra <= u16::MAX { (3 + extra) as u16 } else { u16::MAX };
    Seq::new(boxes, |i: int| if i == focused { SizeRule::Length(grown) } else { SizeRule::Length(3) }).push(
        SizeRule::Length(2),
    )
}

fn modal_rules(boxes: usize, focused: usize, total_height: u16) -> (r: Vec<SizeRule>)
    requires
        focused < boxes <= 7,
    ensures
        r@ == modal_heights(boxes as nat, focused as nat, total_height),
{
    let help_height: u16 = 2;
    let collapsed_total: u16 = 3 * (boxes as u16) + help_height;
    let extra = total_height.saturating_sub(collapsed_total);
    let mut r: Vec<SizeRule> = Vec::new();
    let mut i: usize = 0;
    while i < boxes
        invariant
            i <= boxes <= 7,
            focused < boxes,
            collapsed_total == 3 * boxes + 2,
            extra == (if total_height >= collapsed_total { total_height - collapsed_total } else { 0 }),
            r@ =~= Seq::new(
                i as nat,
                |k: int|
                    if k == focused {
                        SizeRule::Length(
                            if 3 + extra <= u16::MAX {
                                (3 + extra) as u16
                            } else {
                                u16::MAX
                            },
                        )
                    } else {
                        SizeRule::Length(3)
                    },
            ),
        decreases boxes - i,
    {
        let height: u16 = if i == focused {
            3u16.saturating_add(extra)
        } else {
            3
        };
        r.push(SizeRule::Length(height));
        i = i + 1;
    }
    r.push(SizeRule::Length(help_height));
    r
}

/// The position of a box of the model search popup.
pub open spec fn model_box_index(s: SearchFormSection) -> nat {
    match s {
        SearchFormSection::Query => 0,
        SearchFormSection::Sort => 1,
        SearchFormSection::Period => 2,
        SearchFormSection::Type => 3,
        SearchFormSection::Tag => 4,
        SearchFormSection::BaseModel => 5,
    }
}

/// The heights of the model search popup's six boxes and help line.
pub fn build_model_modal_constraints(focused: SearchFormSection, total_height: u16) -> (r: Vec<SizeRule>)
    ensures
        r@ == modal_heights(6, model_box_index(focused), total_height),
{
    let index: usize = match focused {
        SearchFormSection::Query => 0,
        SearchFormSection::Sort => 1,
        SearchFormSection::Period => 2,
        SearchFormSection::Type => 3,
        SearchFormSection::Tag => 4,
        SearchFormSection::BaseModel => 5,
    };
    modal_rules(6, index, total_height)
}

/// The position of a box of the image search popup.
pub open spec fn image_box_index(s: ImageSearchFormSection) -> nat {
    match s {
        ImageSearchFormSection::Query => 0,
        ImageSearchFormSection::Sort => 1,
        ImageSearchFormSection::Period => 2,
        ImageSearchFormSection::MediaType => 3,
        ImageSearchFormSection::Tag => 4,
        ImageSearchFormSection::BaseModel => 5,
        ImageSearchFormSection::AspectRatio => 6,
    }
}

/// The heights of the image search popup's seven boxes and help line.
pub fn build_image_modal_constraints(focused: ImageSearchFormSection, total_height: u16) -> (r: Vec<SizeRule>)
    ensures
        r@ == modal_heights(7, image_box_index(focused), total_height),
{
    let index: usize = match focused {
        ImageSearchFormSection::Query => 0,
        ImageSearchFormSection::Sort => 1,
        ImageSearchFormSection::Period => 2,
        ImageSearchFormSection::MediaType => 3,
        ImageSearchFormSection::Tag => 4,
        ImageSearchFormSection::BaseModel => 5,
        ImageSearchFormSection::AspectRatio => 6,
    };
    modal_rules(7, index, total_height)
}

} // verus!
