//! The used width and horizontal margins of a block box.
//!
//! A block box fills its containing block from edge to edge: its width,
//! horizontal margins, borders and paddings add up to the containing width.
//! Whatever the style leaves `auto` takes up the slack; where nothing is
//! `auto`, the right margin gives way.

use crate::units::{au_add, au_sub, clamp, div_toward_zero, in_range, minus, plus, saturate};
use vstd::prelude::*;
use crate::style::Value;

verus! {

/// The seven declared sizes that share the width of the containing block.
#[derive(Clone, Copy, Debug, PartialEq, Eq, Structural)]
pub struct HorizontalStyle {
    pub width: Value,
    pub margin_left: Value,
    pub margin_right: Value,
    pub border_left: Value,
    pub border_right: Value,
    pub padding_left: Value,
    pub padding_right: Value,
}

/// The same seven sizes once resolved: every one a length.
#[derive(Clone, Copy, Debug, PartialEq, Eq, Structural)]
pub struct UsedHorizontal {
    pub width: i32,
    pub margin_left: i32,
    pub margin_right: i32,
    pub border_left: i32,
    pub border_right: i32,
    pub padding_left: i32,
    pub padding_right: i32,
}

impl UsedHorizontal {
    /// Every size is a length the unit can hold.
    pub open spec fn wf(self) -> bool {
        &&& in_range(self.width as int)
        &&& in_range(self.margin_left as int)
        &&& in_range(self.margin_right as int)
        &&& in_range(self.border_left as int)
        &&& in_range(self.border_right as int)
        &&& in_range(self.padding_left as int)
        &&& in_range(self.padding_right as int)
    }

    /// The exact sum of the seven sizes.
    pub open spec fn total(self) -> int {
        self.margin_left + self.margin_right + self.border_left + self.border_right
            + self.padding_left + self.padding_right + self.width
    }
}

impl HorizontalStyle {
    /// Every explicit length is one the unit can hold.
    pub open spec fn wf(self) -> bool {
        &&& self.width.wf()
        &&& self.margin_left.wf()
        &&& self.margin_right.wf()
        &&& self.border_left.wf()
        &&& self.border_right.wf()
        &&& self.padding_left.wf()
        &&& self.padding_right.wf()
    }

    /// The exact sum of the seven declared sizes, `auto` counting as zero.
    pub open spec fn total(self) -> int {
        self.margin_left.to_au() + self.margin_right.to_au() + self.border_left.to_au()
            + self.border_right.to_au() + self.padding_left.to_au() + self.padding_right.to_au()
            + self.width.to_au()
    }

    /// The box has an explicit width and its declared sizes are wider than
    /// the containing block.
    pub open spec fn too_wide(self, containing_width: i32) -> bool {
        !(self.width is Auto) && self.total() > containing_width
    }

    /// The left margin as it enters the case analysis: an `auto` margin of a
    /// box that is too wide counts as zero from the start.
    pub open spec fn effective_margin_left(self, containing_width: i32) -> Value {
        if self.too_wide(containing_width) && self.margin_left is Auto {
            Value::Length(0)
        } else {
            self.margin_left
        }
    }

    /// The right margin as it enters the case analysis.
    pub open spec fn effective_margin_right(self, containing_width: i32) -> Value {
        if self.too_wide(containing_width) && self.margin_right is Auto {
            Value::Length(0)
        } else {
            self.margin_right
        }
    }

    /// What the containing block has left over once the declared sizes are
    /// taken out; negative where they do not fit.
    pub open spec fn underflow(self, containing_width: i32) -> i32 {
        minus(containing_width, clamp(self.total()) as i32)
    }

    /// The used values of the seven sizes in a containing block of the given
    /// content width.
    pub open spec fn used(self, containing_width: i32) -> UsedHorizontal {
        let margin_left = self.effective_margin_left(containing_width);
        let margin_right = self.effective_margin_right(containing_width);
        let underflow = self.underflow(containing_width);
        let declared = UsedHorizontal {
            width: self.width.to_au(),
            margin_left: margin_left.to_au(),
            margin_right: margin_right.to_au(),
            border_left: self.border_left.to_au(),
            border_right: self.border_right.to_au(),
            padding_left: self.padding_left.to_au(),
            padding_right: self.padding_right.to_au(),
        };
        if self.width is Auto {
            // An `auto` width takes the slack; `auto` margins are zero. Where
            // there is no slack the width is zero and the right margin gives way.
            if underflow >= 0 {
                UsedHorizontal { width: underflow, ..declared }
            } else {
                UsedHorizontal {
                    width: 0,
                    margin_right: plus(declared.margin_right, underflow),
                    ..declared
                }
            }
        } else if margin_left is Auto && margin_right is Auto {
            // Two `auto` margins share the slack, which is never negative
            // here; an odd unit stays on the right.
            let half = div_toward_zero(underflow as int, 2) as i32;
            UsedHorizontal { margin_left: half, margin_right: minus(underflow, half), ..declared }
        } else if margin_left is Auto {
            UsedHorizontal { margin_left: underflow, ..declared }
        } else if margin_right is Auto {
            UsedHorizontal { margin_right: underflow, ..declared }
        } else {
            // Nothing is `auto`: the right margin gives way.
            UsedHorizontal { margin_right: plus(declared.margin_right, underflow), ..declared }
        }
    }

    /// No step of the resolution leaves the unit's range: not the sum of the
    /// declared sizes, not the underflow, not the right margin where it
    /// gives way.
    pub open spec fn fits(self, containing_width: i32) -> bool {
        &&& in_range(self.total())
        &&& in_range(containing_width - self.total())
        &&& !(self.width is Auto) && !(self.effective_margin_left(containing_width) is Auto) && !(
        self.effective_margin_right(containing_width) is Auto) ==> in_range(
            self.margin_right.to_au() + containing_width - self.total(),
        )
    }

    /// Resolves the seven sizes against a containing block of the given
    /// content width.
    pub fn resolve(self, containing_width: i32) -> (u: UsedHorizontal)
        requires
            self.wf(),
            in_range(containing_width as int),
        ensures
            u == self.used(containing_width),
            u.wf(),
    {
        let total: i64 = self.margin_left.to_au() as i64 + self.margin_right.to_au() as i64
            + self.border_left.to_au() as i64 + self.border_right.to_au() as i64
            + self.padding_left.to_au() as i64 + self.padding_right.to_au() as i64
            + self.width.to_au() as i64;
        let mut width = self.width;
        let mut margin_left = self.margin_left;
        let mut margin_right = self.margin_right;

        // If width is not auto and the total is wider than the container,
        // treat auto margins as 0.
        if !width.is_auto() && total > containing_width as i64 {
            if margin_left.is_auto() {
                margin_left = Value::Length(0);
            }
            if margin_right.is_auto() {
                margin_right = Value::Length(0);
            }
        }
        let underflow = au_sub(containing_width, saturate(total));

        match (width.is_auto(), margin_left.is_auto(), margin_right.is_auto()) {
            // If the values are overconstrained, calculate margin_right.
            (false, false, false) => {
                margin_right = Value::Length(au_add(margin_right.to_au(), underflow));
            },
            // If exactly one size is auto, its used value follows from the equality.
            (false, false, true) => {
                margin_right = Value::Length(underflow);
            },
            (false, true, false) => {
                margin_left = Value::Length(underflow);
            },
            // If width is set to auto, any other auto values become 0.
            (true, _, _) => {
                if margin_left.is_auto() {
                    margin_left = Value::Length(0);
                }
                if margin_right.is_auto() {
                    margin_right = Value::Length(0);
                }
                if underflow >= 0 {
                    // Expand width to fill the underflow.
                    width = Value::Length(underflow);
                } else {
                    // Width can't be negative. Adjust the right margin instead.
                    width = Value::Length(0);
                    margin_right = Value::Length(au_add(margin_right.to_au(), underflow));
                }
            },
            // If margin-left and margin-right are both auto, they share the underflow.
            (false, true, true) => {
                let half = underflow / 2;
                margin_left = Value::Length(half);
                margin_right = Value::Length(au_sub(underflow, half));
            },
        }

        UsedHorizontal {
            width: width.to_au(),
            margin_left: margin_left.to_au(),
            margin_right: margin_right.to_au(),
            border_left: self.border_left.to_au(),
            border_right: self.border_right.to_au(),
            padding_left: self.padding_left.to_au(),
            padding_right: self.padding_right.to_au(),
        }
    }
}

/// Width closure: unless the width is `auto` and the declared sizes
/// already overflow the containing block, the used width, margins, borders
/// and paddings add up to the containing width exactly, as long as no step of
/// the resolution leaves the unit's range.
pub proof fn lemma_width_closure(style: HorizontalStyle, containing_width: i32)
    requires
        style.wf(),
        in_range(containing_width as int),
        style.fits(containing_width),
        style.width is Auto ==> style.total() <= containing_width,
    ensures
        style.used(containing_width).total() == containing_width,
{
}

/// Where the width is `auto` and the declared sizes overflow the containing
/// block, the used width is zero and the whole deficit goes into the right
/// margin.
pub proof fn lemma_auto_width_overflow(style: HorizontalStyle, containing_width: i32)
    requires
        style.wf(),
        in_range(containing_width as int),
        style.fits(containing_width),
        style.width is Auto,
        style.total() > containing_width,
    ensures
        style.used(containing_width).width == 0,
        style.used(containing_width).margin_left == style.margin_left.to_au(),
        style.used(containing_width).margin_right == clamp(
            style.margin_right.to_au() + containing_width - style.total(),
        ),
{
}

} // verus!
