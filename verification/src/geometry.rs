//! Rectangles, edge sizes and the four nested boxes of the box model.

use crate::units::{au_add, au_sub, in_range, is_in_range, minus, plus};
use vstd::prelude::*;

verus! {

/// A rectangle in app units: its top-left corner and its extent.
#[derive(Clone, Copy, Debug, PartialEq, Eq, Structural)]
pub struct Rect {
    pub x: i32,
    pub y: i32,
    pub width: i32,
    pub height: i32,
}

/// The thickness of one band (padding, border or margin) on each side.
#[derive(Clone, Copy, Debug, PartialEq, Eq, Structural)]
pub struct EdgeSizes {
    pub left: i32,
    pub right: i32,
    pub top: i32,
    pub bottom: i32,
}

/// The content area of a box and the three bands around it.
#[derive(Clone, Copy, Debug, PartialEq, Eq, Structural)]
pub struct Dimensions {
    /// Position of the content area relative to the document origin.
    pub content: Rect,
    pub padding: EdgeSizes,
    pub border: EdgeSizes,
    pub margin: EdgeSizes,
}

impl Rect {
    /// The empty rectangle at the origin.
    pub open spec fn zero() -> Rect {
        Rect { x: 0, y: 0, width: 0, height: 0 }
    }

    /// Every coordinate is a length the unit can hold.
    pub open spec fn wf(self) -> bool {
        &&& in_range(self.x as int)
        &&& in_range(self.y as int)
        &&& in_range(self.width as int)
        &&& in_range(self.height as int)
    }

    /// The rectangle grown outward by `edge` on each side, in the unit's
    /// saturating arithmetic.
    pub open spec fn spec_expanded_by(self, edge: EdgeSizes) -> Rect {
        Rect {
            x: minus(self.x, edge.left),
            y: minus(self.y, edge.top),
            width: plus(plus(self.width, edge.left), edge.right),
            height: plus(plus(self.height, edge.top), edge.bottom),
        }
    }

    /// Growing the rectangle by `edge` stays within the unit's range at
    /// every step, so that nothing is pinned.
    pub open spec fn expansion_fits(self, edge: EdgeSizes) -> bool {
        &&& in_range(self.x - edge.left)
        &&& in_range(self.y - edge.top)
        &&& in_range(self.width + edge.left)
        &&& in_range(self.width + edge.left + edge.right)
        &&& in_range(self.height + edge.top)
        &&& in_range(self.height + edge.top + edge.bottom)
    }

    /// Whether `inner` lies within this rectangle on both axes.
    pub open spec fn contains(self, inner: Rect) -> bool {
        &&& self.x <= inner.x
        &&& self.y <= inner.y
        &&& inner.x + inner.width <= self.x + self.width
        &&& inner.y + inner.height <= self.y + self.height
    }

    /// Tests whether every coordinate is a length the unit can hold.
    pub fn is_wf(&self) -> (r: bool)
        ensures
            r == self.wf(),
    {
        is_in_range(self.x) && is_in_range(self.y) && is_in_range(self.width) && is_in_range(
            self.height,
        )
    }

    /// Grows the rectangle outward by `edge` on each side.
    #[verifier::when_used_as_spec(spec_expanded_by)]
    pub fn expanded_by(self, edge: EdgeSizes) -> (r: Rect)
        requires
            self.wf(),
            edge.wf(),
        ensures
            r == self.spec_expanded_by(edge),
            r.wf(),
    {
        Rect {
            x: au_sub(self.x, edge.left),
            y: au_sub(self.y, edge.top),
            width: au_add(au_add(self.width, edge.left), edge.right),
            height: au_add(au_add(self.height, edge.top), edge.bottom),
        }
    }
}

impl Default for Rect {
    fn default() -> (r: Rect)
        ensures
            r == Rect::zero(),
    {
        Rect { x: 0, y: 0, width: 0, height: 0 }
    }
}

impl EdgeSizes {
    /// No thickness on any side.
    pub open spec fn zero() -> EdgeSizes {
        EdgeSizes { left: 0, right: 0, top: 0, bottom: 0 }
    }

    /// Every side is a length the unit can hold.
    pub open spec fn wf(self) -> bool {
        &&& in_range(self.left as int)
        &&& in_range(self.right as int)
        &&& in_range(self.top as int)
        &&& in_range(self.bottom as int)
    }

    /// No side is negative.
    pub open spec fn non_negative(self) -> bool {
        &&& self.left >= 0
        &&& self.right >= 0
        &&& self.top >= 0
        &&& self.bottom >= 0
    }

    /// Tests whether every side is a length the unit can hold.
    pub fn is_wf(&self) -> (r: bool)
        ensures
            r == self.wf(),
    {
        is_in_range(self.left) && is_in_range(self.right) && is_in_range(self.top) && is_in_range(
            self.bottom,
        )
    }
}

impl Default for EdgeSizes {
    fn default() -> (e: EdgeSizes)
        ensures
            e == EdgeSizes::zero(),
    {
        EdgeSizes { left: 0, right: 0, top: 0, bottom: 0 }
    }
}

impl Dimensions {
    /// An empty content area at the origin with no bands around it.
    pub open spec fn zero() -> Dimensions {
        Dimensions {
            content: Rect::zero(),
            padding: EdgeSizes::zero(),
            border: EdgeSizes::zero(),
            margin: EdgeSizes::zero(),
        }
    }

    /// Every length in the record is one the unit can hold.
    pub open spec fn wf(self) -> bool {
        &&& self.content.wf()
        &&& self.padding.wf()
        &&& self.border.wf()
        &&& self.margin.wf()
    }

    /// Tests whether every length in the record is one the unit can hold.
    pub fn is_wf(&self) -> (r: bool)
        ensures
            r == self.wf(),
    {
        self.content.is_wf() && self.padding.is_wf() && self.border.is_wf() && self.margin.is_wf()
    }

    /// The content area grown by the padding.
    pub open spec fn spec_padding_box(self) -> Rect {
        self.content.spec_expanded_by(self.padding)
    }

    /// The padding box grown by the border.
    pub open spec fn spec_border_box(self) -> Rect {
        self.spec_padding_box().spec_expanded_by(self.border)
    }

    /// The border box grown by the margin.
    pub open spec fn spec_margin_box(self) -> Rect {
        self.spec_border_box().spec_expanded_by(self.margin)
    }

    /// The area covered by the content area plus its padding.
    #[verifier::when_used_as_spec(spec_padding_box)]
    pub fn padding_box(self) -> (r: Rect)
        requires
            self.wf(),
        ensures
            r == self.spec_padding_box(),
            r.wf(),
    {
        self.content.expanded_by(self.padding)
    }

    /// The area covered by the content area plus padding and borders.
    #[verifier::when_used_as_spec(spec_border_box)]
    pub fn border_box(self) -> (r: Rect)
        requires
            self.wf(),
        ensures
            r == self.spec_border_box(),
            r.wf(),
    {
        self.padding_box().expanded_by(self.border)
    }

    /// The area covered by the content area plus padding, borders and margin.
    #[verifier::when_used_as_spec(spec_margin_box)]
    pub fn margin_box(self) -> (r: Rect)
        requires
            self.wf(),
        ensures
            r == self.spec_margin_box(),
            r.wf(),
    {
        self.border_box().expanded_by(self.margin)
    }

    /// None of the three expansions, from the content area out to the
    /// margin box, leaves the unit's range.
    pub open spec fn boxes_fit(self) -> bool {
        &&& self.content.expansion_fits(self.padding)
        &&& self.spec_padding_box().expansion_fits(self.border)
        &&& self.spec_border_box().expansion_fits(self.margin)
    }

    /// No padding, border or margin is negative on any side.
    pub open spec fn edges_non_negative(self) -> bool {
        &&& self.padding.non_negative()
        &&& self.border.non_negative()
        &&& self.margin.non_negative()
    }
}

impl Default for Dimensions {
    fn default() -> (d: Dimensions)
        ensures
            d == Dimensions::zero(),
    {
        Dimensions {
            content: Rect { x: 0, y: 0, width: 0, height: 0 },
            padding: EdgeSizes { left: 0, right: 0, top: 0, bottom: 0 },
            border: EdgeSizes { left: 0, right: 0, top: 0, bottom: 0 },
            margin: EdgeSizes { left: 0, right: 0, top: 0, bottom: 0 },
        }
    }
}

/// An expansion that stays within the unit's range moves the corner out by
/// the left and top edges and adds both edges of each axis to the extent,
/// exactly.
pub proof fn lemma_expansion_exact(rect: Rect, edge: EdgeSizes)
    requires
        rect.wf(),
        edge.wf(),
        rect.expansion_fits(edge),
    ensures
        rect.expanded_by(edge).x == rect.x - edge.left,
        rect.expanded_by(edge).y == rect.y - edge.top,
        rect.expanded_by(edge).width == rect.width + edge.left + edge.right,
        rect.expanded_by(edge).height == rect.height + edge.top + edge.bottom,
{
}

/// A rectangle grown by edges that are not negative contains the rectangle
/// it was grown from, as long as the expansion stays within the unit's range.
pub proof fn lemma_expansion_contains(rect: Rect, edge: EdgeSizes)
    requires
        rect.wf(),
        edge.wf(),
        edge.non_negative(),
        rect.expansion_fits(edge),
    ensures
        rect.expanded_by(edge).contains(rect),
{
}

/// Box containment: with no negative edge, the margin box contains the
/// border box, the border box the padding box, and the padding box the
/// content area, as long as the three expansions stay within the unit's
/// range.
pub proof fn lemma_box_containment(d: Dimensions)
    requires
        d.wf(),
        d.edges_non_negative(),
        d.boxes_fit(),
    ensures
        d.margin_box().contains(d.border_box()),
        d.border_box().contains(d.padding_box()),
        d.padding_box().contains(d.content),
{
}

/// The three boxes around the content area are each the one inside grown
/// by exactly the stated edges, as long as the three expansions stay within
/// the unit's range: the margin box starts left of and above the content
/// area by the three left and the three top edges, and is wider and taller
/// than it by all six edges of the axis.
pub proof fn lemma_boxes_exact(d: Dimensions)
    requires
        d.wf(),
        d.boxes_fit(),
    ensures
        d.padding_box().x == d.content.x - d.padding.left,
        d.padding_box().y == d.content.y - d.padding.top,
        d.padding_box().width == d.content.width + d.padding.left + d.padding.right,
        d.padding_box().height == d.content.height + d.padding.top + d.padding.bottom,
        d.border_box().x == d.padding_box().x - d.border.left,
        d.border_box().y == d.padding_box().y - d.border.top,
        d.border_box().width == d.padding_box().width + d.border.left + d.border.right,
        d.border_box().height == d.padding_box().height + d.border.top + d.border.bottom,
        d.margin_box().x == d.border_box().x - d.margin.left,
        d.margin_box().y == d.border_box().y - d.margin.top,
        d.margin_box().width == d.border_box().width + d.margin.left + d.margin.right,
        d.margin_box().height == d.border_box().height + d.margin.top + d.margin.bottom,
{
}

} // verus!
