//! The layout pass: every box gets its place and size.
//!
//! A box is resolved against its containing block on the way down (width
//! and position) and finished from its children on the way up (height). A
//! block stacks its children downward, an inline box and an anonymous block
//! set theirs side by side.

use crate::boxes::{BoxTree, BoxType, LayoutBox};
use crate::builder::{build_layout_tree, spec_build};
use crate::geometry::{Dimensions, EdgeSizes, Rect};
use crate::style::{Display, NodeType, Property, StyledNode, Value};
use crate::text::{spec_text_height, text_height, FontMetrics, DEFAULT_LINE_HEIGHT};
use crate::units::{au_add, au_sub, in_range, minus, plus};
use crate::width::HorizontalStyle;
use vstd::prelude::*;

verus! {

/// The declared length of one side of a band: that of the side itself, else
/// that of the band's shorthand, else zero. `auto` counts as zero.
pub open spec fn spec_side(node: &StyledNode, property: Property, shorthand: Property) -> i32 {
    node.spec_lookup(property, shorthand, Value::Length(0)).to_au()
}

/// The seven declared sizes that a block box resolves against the width of
/// its containing block. An undeclared width is `auto`; an undeclared margin,
/// border or padding is zero.
pub open spec fn spec_horizontal_style(node: &StyledNode) -> HorizontalStyle {
    HorizontalStyle {
        width: match node.spec_value(Property::Width) {
            Some(v) => v,
            None => Value::Auto,
        },
        margin_left: node.spec_lookup(Property::MarginLeft, Property::Margin, Value::Length(0)),
        margin_right: node.spec_lookup(Property::MarginRight, Property::Margin, Value::Length(0)),
        border_left: node.spec_lookup(
            Property::BorderLeftWidth,
            Property::BorderWidth,
            Value::Length(0),
        ),
        border_right: node.spec_lookup(
            Property::BorderRightWidth,
            Property::BorderWidth,
            Value::Length(0),
        ),
        padding_left: node.spec_lookup(Property::PaddingLeft, Property::Padding, Value::Length(0)),
        padding_right: node.spec_lookup(
            Property::PaddingRight,
            Property::Padding,
            Value::Length(0),
        ),
    }
}

/// The dimensions of a block box once its width and its left and right
/// edges are resolved against the containing block.
pub open spec fn spec_block_width(d: Dimensions, node: &StyledNode, containing: Dimensions) -> Dimensions {
    let used = spec_horizontal_style(node).used(containing.content.width);
    Dimensions {
        content: Rect { width: used.width, ..d.content },
        padding: EdgeSizes { left: used.padding_left, right: used.padding_right, ..d.padding },
        border: EdgeSizes { left: used.border_left, right: used.border_right, ..d.border },
        margin: EdgeSizes { left: used.margin_left, right: used.margin_right, ..d.margin },
    }
}

/// The dimensions of a block box once its top and bottom edges are
/// resolved and its content area is placed: at the left of the containing
/// block, below everything the containing block already holds.
pub open spec fn spec_block_position(d: Dimensions, node: &StyledNode, containing: Dimensions) -> Dimensions {
    let margin = EdgeSizes {
        top: spec_side(node, Property::MarginTop, Property::Margin),
        bottom: spec_side(node, Property::MarginBottom, Property::Margin),
        ..d.margin
    };
    let border = EdgeSizes {
        top: spec_side(node, Property::BorderTopWidth, Property::BorderWidth),
        bottom: spec_side(node, Property::BorderBottomWidth, Property::BorderWidth),
        ..d.border
    };
    let padding = EdgeSizes {
        top: spec_side(node, Property::PaddingTop, Property::Padding),
        bottom: spec_side(node, Property::PaddingBottom, Property::Padding),
        ..d.padding
    };
    Dimensions {
        content: Rect {
            x: plus(plus(plus(containing.content.x, margin.left), border.left), padding.left),
            y: plus(
                plus(
                    plus(plus(containing.content.height, containing.content.y), margin.top),
                    border.top,
                ),
                padding.top,
            ),
            ..d.content
        },
        padding,
        border,
        margin,
    }
}

/// The dimensions of a block box once its height is final: a declared
/// length replaces the height that the children added up to, and the
/// content area moves up by half the leading of the font.
pub open spec fn spec_block_height(d: Dimensions, node: &StyledNode, fm: FontMetrics) -> Dimensions {
    Dimensions {
        content: Rect {
            y: minus(d.content.y, fm.half_leading()),
            height: match node.spec_value(Property::Height) {
                Some(Value::Length(h)) => h,
                _ => d.content.height,
            },
            ..d.content
        },
        ..d
    }
}

/// The dimensions of an inline box once its edges are resolved and its
/// content area is placed: to the right of and below what the containing
/// box already holds. The left and right padding are not resolved.
pub open spec fn spec_inline_position(d: Dimensions, node: &StyledNode, containing: Dimensions) -> Dimensions {
    let margin = EdgeSizes {
        top: spec_side(node, Property::MarginTop, Property::Margin),
        bottom: spec_side(node, Property::MarginBottom, Property::Margin),
        left: spec_side(node, Property::MarginLeft, Property::Margin),
        right: spec_side(node, Property::MarginRight, Property::Margin),
    };
    let border = EdgeSizes {
        top: spec_side(node, Property::BorderTopWidth, Property::BorderWidth),
        bottom: spec_side(node, Property::BorderBottomWidth, Property::BorderWidth),
        left: spec_side(node, Property::BorderLeftWidth, Property::BorderWidth),
        right: spec_side(node, Property::BorderRightWidth, Property::BorderWidth),
    };
    let padding = EdgeSizes {
        top: spec_side(node, Property::PaddingTop, Property::Padding),
        bottom: spec_side(node, Property::PaddingBottom, Property::Padding),
        ..d.padding
    };
    Dimensions {
        content: Rect {
            x: plus(
                plus(
                    plus(plus(containing.content.width, containing.content.x), margin.left),
                    border.left,
                ),
                padding.left,
            ),
            y: plus(
                plus(
                    plus(plus(containing.content.height, containing.content.y), margin.top),
                    border.top,
                ),
                padding.top,
            ),
            ..d.content
        },
        padding,
        border,
        margin,
    }
}

/// The dimensions of an inline box once its text, if it holds any, has set
/// its size: as wide as the text's advance and as tall as the lines reserved
/// for it within the width of `saved`.
pub open spec fn spec_text_size(d: Dimensions, node: &StyledNode, saved: Dimensions) -> Dimensions {
    match node.node {
        NodeType::Element => d,
        NodeType::Text { advance } => Dimensions {
            content: Rect {
                width: advance,
                height: spec_text_height(advance, saved.content.width),
                ..d.content
            },
            ..d
        },
    }
}

/// `d` with its content area taller by `by`.
pub open spec fn taller(d: Dimensions, by: i32) -> Dimensions {
    Dimensions { content: Rect { height: plus(d.content.height, by), ..d.content }, ..d }
}

/// `d` with its content area wider by `by`.
pub open spec fn wider(d: Dimensions, by: i32) -> Dimensions {
    Dimensions { content: Rect { width: plus(d.content.width, by), ..d.content }, ..d }
}

/// `d` with an empty content width: the containing block in which an
/// anonymous block sets out its first child.
pub open spec fn row_start(d: Dimensions) -> Dimensions {
    Dimensions { content: Rect { width: 0, ..d.content }, ..d }
}

/// The laid-out tree of `b` in the containing block `containing`, where
/// `saved` gives the width available to text.
///
/// A block box resolves its width and its position against `containing`,
/// lays out its children one below the other, and then settles its height.
/// An inline box is placed after what `containing` already holds, lays out
/// its children side by side, is one default line high, and takes the size
/// of its text if it holds text. An anonymous block takes over the
/// dimensions of `containing` as they are, lays out its children side by
/// side from an empty width, and is as tall as the tallest margin box among
/// its children.
pub open spec fn spec_layout<'a>(
    b: BoxTree<'a>,
    fm: FontMetrics,
    containing: Dimensions,
    saved: Dimensions,
) -> BoxTree<'a>
    decreases b, 0nat,
{
    match b.box_type {
        BoxType::BlockNode(node) => {
            let start = spec_block_position(
                spec_block_width(b.dimensions, node, containing),
                node,
                containing,
            );
            BoxTree {
                dimensions: spec_block_height(
                    spec_block_progress(b.children, b.children.len(), fm, start),
                    node,
                    fm,
                ),
                box_type: b.box_type,
                children: spec_block_children(b.children, fm, start),
            }
        },
        BoxType::InlineNode(node) => {
            let start = spec_inline_position(b.dimensions, node, containing);
            let filled = spec_inline_progress(b.children, b.children.len(), fm, start);
            let lined = Dimensions {
                content: Rect { height: DEFAULT_LINE_HEIGHT, ..filled.content },
                ..filled
            };
            BoxTree {
                dimensions: spec_text_size(lined, node, saved),
                box_type: b.box_type,
                children: spec_inline_children(b.children, fm, start),
            }
        },
        BoxType::AnonymousBlock => {
            let start = row_start(containing);
            BoxTree {
                dimensions: Dimensions {
                    content: Rect {
                        height: spec_row_height(b.children, b.children.len(), fm, start, saved),
                        ..containing.content
                    },
                    ..containing
                },
                box_type: b.box_type,
                children: spec_row_children(b.children, fm, start, saved),
            }
        },
    }
}

/// The children of a block box, laid out one below the other: each inside
/// the box as it stands after the children before it.
pub open spec fn spec_block_children<'a>(
    children: Seq<BoxTree<'a>>,
    fm: FontMetrics,
    start: Dimensions,
) -> Seq<BoxTree<'a>>
    decreases children, children.len() + 1,
{
    Seq::new(
        children.len(),
        |i: int|
            if 0 <= i < children.len() {
                spec_layout(
                    children[i],
                    fm,
                    spec_block_progress(children, i as nat, fm, start),
                    spec_block_progress(children, i as nat, fm, start),
                )
            } else {
                arbitrary()
            },
    )
}

/// The children of an inline box, laid out side by side: each inside the
/// box as it stands after the children before it.
pub open spec fn spec_inline_children<'a>(
    children: Seq<BoxTree<'a>>,
    fm: FontMetrics,
    start: Dimensions,
) -> Seq<BoxTree<'a>>
    decreases children, children.len() + 1,
{
    Seq::new(
        children.len(),
        |i: int|
            if 0 <= i < children.len() {
                spec_layout(
                    children[i],
                    fm,
                    spec_inline_progress(children, i as nat, fm, start),
                    spec_inline_progress(children, i as nat, fm, start),
                )
            } else {
                arbitrary()
            },
    )
}

/// The children of an anonymous block, laid out side by side: each in the
/// containing block as it stands after the children before it.
pub open spec fn spec_row_children<'a>(
    children: Seq<BoxTree<'a>>,
    fm: FontMetrics,
    start: Dimensions,
    saved: Dimensions,
) -> Seq<BoxTree<'a>>
    decreases children, children.len() + 1,
{
    Seq::new(
        children.len(),
        |i: int|
            if 0 <= i < children.len() {
                spec_layout(
                    children[i],
                    fm,
                    spec_row_progress(children, i as nat, fm, start, saved),
                    saved,
                )
            } else {
                arbitrary()
            },
    )
}

/// The dimensions of a block box after the first `n` of its children are
/// laid out, starting from `start`: each child is laid out inside the box as
/// it then stands, and makes it taller by the height of its margin box.
pub open spec fn spec_block_progress(
    children: Seq<BoxTree>,
    n: nat,
    fm: FontMetrics,
    start: Dimensions,
) -> Dimensions
    decreases children, n,
{
    if n == 0 || n > children.len() {
        start
    } else {
        let before = spec_block_progress(children, (n - 1) as nat, fm, start);
        let child = spec_layout(children[n - 1], fm, before, before);
        taller(before, child.dimensions.margin_box().height)
    }
}

/// The dimensions of an inline box after the first `n` of its children are
/// laid out, starting from `start`: each child is laid out inside the box as
/// it then stands, and makes it wider by the width of its margin box.
pub open spec fn spec_inline_progress(
    children: Seq<BoxTree>,
    n: nat,
    fm: FontMetrics,
    start: Dimensions,
) -> Dimensions
    decreases children, n,
{
    if n == 0 || n > children.len() {
        start
    } else {
        let before = spec_inline_progress(children, (n - 1) as nat, fm, start);
        let child = spec_layout(children[n - 1], fm, before, before);
        wider(before, child.dimensions.margin_box().width)
    }
}

/// The containing block in which an anonymous block lays out its child
/// number `n`, starting from `start`: each child before it was laid out in
/// the containing block as it then stood, and made it wider by the width of
/// its margin box.
pub open spec fn spec_row_progress(
    children: Seq<BoxTree>,
    n: nat,
    fm: FontMetrics,
    start: Dimensions,
    saved: Dimensions,
) -> Dimensions
    decreases children, n,
{
    if n == 0 || n > children.len() {
        start
    } else {
        let before = spec_row_progress(children, (n - 1) as nat, fm, start, saved);
        let child = spec_layout(children[n - 1], fm, before, saved);
        wider(before, child.dimensions.margin_box().width)
    }
}

/// The height of an anonymous block after the first `n` of its children:
/// that of the tallest margin box among them. Before the first child it is
/// the height that `start` came with.
pub open spec fn spec_row_height(
    children: Seq<BoxTree>,
    n: nat,
    fm: FontMetrics,
    start: Dimensions,
    saved: Dimensions,
) -> i32
    decreases children, n,
{
    if n == 0 || n > children.len() {
        start.content.height
    } else {
        let child = spec_layout(
            children[n - 1],
            fm,
            spec_row_progress(children, (n - 1) as nat, fm, start, saved),
            saved,
        );
        let before = spec_row_height(children, (n - 1) as nat, fm, start, saved);
        if n == 1 || before < child.dimensions.margin_box().height {
            child.dimensions.margin_box().height
        } else {
            before
        }
    }
}

/// Reads the declared length of one side of a band.
fn side(style: &StyledNode, property: Property, shorthand: Property) -> (r: i32)
    requires
        style.lengths_wf(),
    ensures
        r == spec_side(style, property, shorthand),
        in_range(r as int),
{
    // margin, border, and padding have initial value 0.
    style.lookup(property, shorthand, Value::Length(0)).to_au()
}

/// Reads the seven declared sizes that share the containing width.
fn horizontal_style(style: &StyledNode) -> (h: HorizontalStyle)
    requires
        style.lengths_wf(),
    ensures
        h == spec_horizontal_style(style),
        h.wf(),
{
    let zero = Value::Length(0);
    HorizontalStyle {
        // `width` has initial value `auto`.
        width: match style.value(Property::Width) {
            Some(v) => v,
            None => Value::Auto,
        },
        margin_left: style.lookup(Property::MarginLeft, Property::Margin, zero),
        margin_right: style.lookup(Property::MarginRight, Property::Margin, zero),
        border_left: style.lookup(Property::BorderLeftWidth, Property::BorderWidth, zero),
        border_right: style.lookup(Property::BorderRightWidth, Property::BorderWidth, zero),
        padding_left: style.lookup(Property::PaddingLeft, Property::Padding, zero),
        padding_right: style.lookup(Property::PaddingRight, Property::Padding, zero),
    }
}

impl<'a> LayoutBox<'a> {
    /// Calculate the width of a block-level non-replaced element in normal
    /// flow. Sets the horizontal margin, padding and border, and the width.
    fn calculate_block_width(&mut self, containing_block: Dimensions)
        requires
            !(old(self).box_type is AnonymousBlock),
            old(self).box_type.node().lengths_wf(),
            old(self).dimensions.wf(),
            containing_block.wf(),
        ensures
            final(self).dimensions == spec_block_width(
                old(self).dimensions,
                old(self).box_type.node(),
                containing_block,
            ),
            final(self).dimensions.wf(),
            final(self).box_type == old(self).box_type,
            final(self).children == old(self).children,
    {
        let style = self.get_style_node();
        let used = horizontal_style(style).resolve(containing_block.content.width);

        self.dimensions.content.width = used.width;

        self.dimensions.padding.left = used.padding_left;
        self.dimensions.padding.right = used.padding_right;

        self.dimensions.border.left = used.border_left;
        self.dimensions.border.right = used.border_right;

        self.dimensions.margin.left = used.margin_left;
        self.dimensions.margin.right = used.margin_right;
    }

    /// Finish calculating the block's edge sizes, and position it within its
    /// containing block. Sets the vertical margin, padding and border, and
    /// the `x`, `y` values.
    fn calculate_block_position(&mut self, containing_block: Dimensions)
        requires
            !(old(self).box_type is AnonymousBlock),
            old(self).box_type.node().lengths_wf(),
            old(self).dimensions.wf(),
            containing_block.wf(),
        ensures
            final(self).dimensions == spec_block_position(
                old(self).dimensions,
                old(self).box_type.node(),
                containing_block,
            ),
            final(self).dimensions.wf(),
            final(self).box_type == old(self).box_type,
            final(self).children == old(self).children,
    {
        let style = self.get_style_node();

        // If margin-top or margin-bottom is `auto`, the used value is zero.
        self.dimensions.margin.top = side(style, Property::MarginTop, Property::Margin);
        self.dimensions.margin.bottom = side(style, Property::MarginBottom, Property::Margin);

        self.dimensions.border.top = side(style, Property::BorderTopWidth, Property::BorderWidth);
        self.dimensions.border.bottom = side(
            style,
            Property::BorderBottomWidth,
            Property::BorderWidth,
        );

        self.dimensions.padding.top = side(style, Property::PaddingTop, Property::Padding);
        self.dimensions.padding.bottom = side(style, Property::PaddingBottom, Property::Padding);

        self.dimensions.content.x = au_add(
            au_add(
                au_add(containing_block.content.x, self.dimensions.margin.left),
                self.dimensions.border.left,
            ),
            self.dimensions.padding.left,
        );

        // Position the box below all the previous boxes in the container.
        self.dimensions.content.y = au_add(
            au_add(
                au_add(
                    au_add(containing_block.content.height, containing_block.content.y),
                    self.dimensions.margin.top,
                ),
                self.dimensions.border.top,
            ),
            self.dimensions.padding.top,
        );
    }

    /// Height of a block-level non-replaced element in normal flow with
    /// overflow visible.
    fn calculate_block_height(&mut self, fm: FontMetrics)
        requires
            !(old(self).box_type is AnonymousBlock),
            old(self).box_type.node().lengths_wf(),
            old(self).dimensions.wf(),
            fm.wf(),
        ensures
            final(self).dimensions == spec_block_height(
                old(self).dimensions,
                old(self).box_type.node(),
                fm,
            ),
            final(self).dimensions.wf(),
            final(self).box_type == old(self).box_type,
            final(self).children == old(self).children,
    {
        // If the height is set to an explicit length, use that exact length.
        // Otherwise, just keep the value set by `layout_block_children`.
        if let Some(Value::Length(h)) = self.get_style_node().value(Property::Height) {
            self.dimensions.content.height = h;
        }
        // When a block contains text, the line is taller than the glyphs.

        self.dimensions.content.y = au_sub(self.dimensions.content.y, fm.half_leading());
    }

    /// Finish calculating the inline box's edge sizes, and position it
    /// within its containing block.
    fn calculate_inline_position(&mut self, containing_block: Dimensions)
        requires
            !(old(self).box_type is AnonymousBlock),
            old(self).box_type.node().lengths_wf(),
            old(self).dimensions.wf(),
            containing_block.wf(),
        ensures
            final(self).dimensions == spec_inline_position(
                old(self).dimensions,
                old(self).box_type.node(),
                containing_block,
            ),
            final(self).dimensions.wf(),
            final(self).box_type == old(self).box_type,
            final(self).children == old(self).children,
    {
        let style = self.get_style_node();

        self.dimensions.margin.top = side(style, Property::MarginTop, Property::Margin);
        self.dimensions.margin.bottom = side(style, Property::MarginBottom, Property::Margin);
        self.dimensions.margin.left = side(style, Property::MarginLeft, Property::Margin);
        self.dimensions.margin.right = side(style, Property::MarginRight, Property::Margin);

        self.dimensions.border.top = side(style, Property::BorderTopWidth, Property::BorderWidth);
        self.dimensions.border.bottom = side(
            style,
            Property::BorderBottomWidth,
            Property::BorderWidth,
        );
        self.dimensions.border.left = side(style, Property::BorderLeftWidth, Property::BorderWidth);
        self.dimensions.border.right = side(
            style,
            Property::BorderRightWidth,
            Property::BorderWidth,
        );

        self.dimensions.padding.top = side(style, Property::PaddingTop, Property::Padding);
        self.dimensions.padding.bottom = side(style, Property::PaddingBottom, Property::Padding);

        self.dimensions.content.x = au_add(
            au_add(
                au_add(
                    au_add(containing_block.content.width, containing_block.content.x),
                    self.dimensions.margin.left,
                ),
                self.dimensions.border.left,
            ),
            self.dimensions.padding.left,
        );

        self.dimensions.content.y = au_add(
            au_add(
                au_add(
                    au_add(containing_block.content.height, containing_block.content.y),
                    self.dimensions.margin.top,
                ),
                self.dimensions.border.top,
            ),
            self.dimensions.padding.top,
        );
    }

    /// Lay out a text: the text's width and height become the node's width
    /// and height.
    fn layout_text(&mut self, saved_block: Dimensions)
        requires
            !(old(self).box_type is AnonymousBlock),
            old(self).box_type.node().lengths_wf(),
            old(self).dimensions.wf(),
        ensures
            final(self).dimensions == spec_text_size(
                old(self).dimensions,
                old(self).box_type.node(),
                saved_block,
            ),
            final(self).dimensions.wf(),
            final(self).box_type == old(self).box_type,
            final(self).children == old(self).children,
    {
        match self.get_style_node().node {
            NodeType::Element => {},
            NodeType::Text { advance } => {
                let max_width = saved_block.content.width;
                self.dimensions.content.width = advance;
                self.dimensions.content.height = text_height(advance, max_width);
            },
        }
    }
}

impl<'a> LayoutBox<'a> {
    /// Lay out a box and its descendants.
    /// `saved_block` gives the width that text has to fit in.
    pub fn layout(
        &mut self,
        fm: FontMetrics,
        containing_block: Dimensions,
        saved_block: Dimensions,
    )
        requires
            old(self)@.wf(),
            fm.wf(),
            containing_block.wf(),
            saved_block.wf(),
        ensures
            final(self)@ == spec_layout(old(self)@, fm, containing_block, saved_block),
            final(self)@.wf(),
        decreases old(self).children, 3nat,
    {
        match self.box_type {
            BoxType::BlockNode(_) => self.layout_block(fm, containing_block, saved_block),
            BoxType::InlineNode(_) => self.layout_inline(fm, containing_block, saved_block),
            BoxType::AnonymousBlock => {
                let ghost kids = self@.children;
                let ghost start = row_start(containing_block);
                proof {
                    self.lemma_view_children();
                }
                self.dimensions = containing_block;
                let mut row = containing_block;
                row.content.width = 0;
                let n = self.children.len();
                let mut i: usize = 0;
                while i < n
                    invariant
                        i <= n,
                        n == self.children.len(),
                        n == kids.len(),
                        kids == old(self)@.children,
                        self.box_type == old(self).box_type,
                        fm.wf(),
                        saved_block.wf(),
                        containing_block.wf(),
                        row.wf(),
                        self.dimensions.wf(),
                        self.dimensions == (Dimensions {
                            content: Rect {
                                height: self.dimensions.content.height,
                                ..containing_block.content
                            },
                            ..containing_block
                        }),
                        row == spec_row_progress(kids, i as nat, fm, start, saved_block),
                        self.dimensions.content.height == spec_row_height(
                            kids,
                            i as nat,
                            fm,
                            start,
                            saved_block,
                        ),
                        forall|j: int|
                            i <= j < n ==> (#[trigger] self.children[j]) == old(self).children[j],
                        forall|j: int| 0 <= j < n ==> (#[trigger] kids[j]) == old(self).children[j]@,
                        forall|j: int| 0 <= j < n ==> (#[trigger] kids[j]).wf(),
                        forall|j: int|
                            0 <= j < i ==> (#[trigger] self.children[j])@ == spec_row_children(
                                kids,
                                fm,
                                start,
                                saved_block,
                            )[j],
                        forall|j: int| 0 <= j < i ==> (#[trigger] self.children[j])@.wf(),
                    decreases n - i,
                {
                    proof {
                        assert(self.children[i as int] == old(self).children[i as int]);
                        assert(kids[i as int].wf());
                    }
                    let child = &mut self.children[i];
                    child.layout(fm, row, saved_block);
                    let child_box = self.children[i].dimensions.margin_box();
                    row.content.width = au_add(row.content.width, child_box.width);
                    // The block is as tall as its tallest child.
                    if i == 0 || self.dimensions.content.height < child_box.height {
                        self.dimensions.content.height = child_box.height;
                    }
                    i = i + 1;
                }
                proof {
                    self.lemma_view_children();
                    assert(self@.children =~= spec_row_children(kids, fm, start, saved_block));
                }
            },
        }
    }

    /// Lay out a block-level element and its descendants.
    fn layout_block(
        &mut self,
        fm: FontMetrics,
        containing_block: Dimensions,
        saved_block: Dimensions,
    )
        requires
            old(self).box_type is BlockNode,
            old(self)@.wf(),
            fm.wf(),
            containing_block.wf(),
        ensures
            final(self)@ == spec_layout(old(self)@, fm, containing_block, saved_block),
            final(self)@.wf(),
        decreases old(self).children, 2nat,
    {
        proof {
            self.lemma_view_children();
        }
        // Child width can depend on parent width, so we need to calculate
        // this box's width before laying out its children.
        self.calculate_block_width(containing_block);

        self.calculate_block_position(containing_block);

        proof {
            self.lemma_view_children();
            assert(self@.children =~= old(self)@.children);
        }
        self.layout_block_children(fm);

        // Parent height can depend on child height, so the height must be
        // calculated after the children are laid out.
        let ghost laid = self@.children;
        proof {
            self.lemma_view_children();
        }
        self.calculate_block_height(fm);
        proof {
            self.lemma_view_children();
            assert(self@.children =~= laid);
        }
    }

    /// Lay out an inline-level element and its descendants.
    fn layout_inline(
        &mut self,
        fm: FontMetrics,
        containing_block: Dimensions,
        saved_block: Dimensions,
    )
        requires
            old(self).box_type is InlineNode,
            old(self)@.wf(),
            fm.wf(),
            containing_block.wf(),
        ensures
            final(self)@ == spec_layout(old(self)@, fm, containing_block, saved_block),
            final(self)@.wf(),
        decreases old(self).children, 2nat,
    {
        proof {
            self.lemma_view_children();
        }
        self.calculate_inline_position(containing_block);
        proof {
            self.lemma_view_children();
            assert(self@.children =~= old(self)@.children);
        }

        self.layout_inline_children(fm);

        // If the node is a text node, the text's width and height become
        // the node's width and height.
        let ghost laid = self@.children;
        proof {
            self.lemma_view_children();
        }
        self.layout_text(saved_block);
        proof {
            self.lemma_view_children();
            assert(self@.children =~= laid);
        }
    }

    /// Lay out the block's children within its content area.
    /// Sets the height of the content area to the total content height.
    fn layout_block_children(&mut self, fm: FontMetrics)
        requires
            old(self)@.wf(),
            fm.wf(),
        ensures
            final(self).box_type == old(self).box_type,
            final(self).dimensions == spec_block_progress(
                old(self)@.children,
                old(self)@.children.len(),
                fm,
                old(self).dimensions,
            ),
            final(self)@.children == spec_block_children(
                old(self)@.children,
                fm,
                old(self).dimensions,
            ),
            final(self)@.wf(),
        decreases old(self).children, 1nat,
    {
        let ghost kids = self@.children;
        let ghost start = self.dimensions;
        proof {
            self.lemma_view_children();
        }
        let n = self.children.len();
        let mut i: usize = 0;
        while i < n
            invariant
                i <= n,
                n == self.children.len(),
                n == kids.len(),
                kids == old(self)@.children,
                start == old(self).dimensions,
                self.box_type == old(self).box_type,
                !(self.box_type is AnonymousBlock) ==> self.box_type.node().lengths_wf(),
                fm.wf(),
                self.dimensions.wf(),
                self.dimensions == spec_block_progress(kids, i as nat, fm, start),
                forall|j: int|
                    i <= j < n ==> (#[trigger] self.children[j]) == old(self).children[j],
                forall|j: int| 0 <= j < n ==> (#[trigger] kids[j]) == old(self).children[j]@,
                forall|j: int| 0 <= j < n ==> (#[trigger] kids[j]).wf(),
                forall|j: int|
                    0 <= j < i ==> (#[trigger] self.children[j])@ == spec_block_children(
                        kids,
                        fm,
                        start,
                    )[j],
                forall|j: int| 0 <= j < i ==> (#[trigger] self.children[j])@.wf(),
            decreases n - i,
        {
            proof {
                assert(self.children[i as int] == old(self).children[i as int]);
                assert(kids[i as int].wf());
            }
            let d = self.dimensions;
            let child = &mut self.children[i];
            child.layout(fm, d, d);
            // Increment the height so each child is laid out below the previous one.
            let child_box = self.children[i].dimensions.margin_box();
            self.dimensions.content.height = au_add(
                self.dimensions.content.height,
                child_box.height,
            );
            i = i + 1;
        }
        proof {
            self.lemma_view_children();
            assert(self@.children =~= spec_block_children(kids, fm, start));
        }
    }

    /// Lay out the inline box's children within its content area.
    /// Sets the width of the content area to the total content width and
    /// its height to one default line.
    fn layout_inline_children(&mut self, fm: FontMetrics)
        requires
            old(self)@.wf(),
            fm.wf(),
        ensures
            final(self).box_type == old(self).box_type,
            final(self).dimensions == (Dimensions {
                content: Rect {
                    height: DEFAULT_LINE_HEIGHT,
                    ..spec_inline_progress(
                        old(self)@.children,
                        old(self)@.children.len(),
                        fm,
                        old(self).dimensions,
                    ).content
                },
                ..spec_inline_progress(
                    old(self)@.children,
                    old(self)@.children.len(),
                    fm,
                    old(self).dimensions,
                )
            }),
            final(self)@.children == spec_inline_children(
                old(self)@.children,
                fm,
                old(self).dimensions,
            ),
            final(self)@.wf(),
        decreases old(self).children, 1nat,
    {
        let ghost kids = self@.children;
        let ghost start = self.dimensions;
        proof {
            self.lemma_view_children();
        }
        let n = self.children.len();
        let mut i: usize = 0;
        while i < n
            invariant
                i <= n,
                n == self.children.len(),
                n == kids.len(),
                kids == old(self)@.children,
                start == old(self).dimensions,
                self.box_type == old(self).box_type,
                !(self.box_type is AnonymousBlock) ==> self.box_type.node().lengths_wf(),
                fm.wf(),
                self.dimensions.wf(),
                self.dimensions == spec_inline_progress(kids, i as nat, fm, start),
                forall|j: int|
                    i <= j < n ==> (#[trigger] self.children[j]) == old(self).children[j],
                forall|j: int| 0 <= j < n ==> (#[trigger] kids[j]) == old(self).children[j]@,
                forall|j: int| 0 <= j < n ==> (#[trigger] kids[j]).wf(),
                forall|j: int|
                    0 <= j < i ==> (#[trigger] self.children[j])@ == spec_inline_children(
                        kids,
                        fm,
                        start,
                    )[j],
                forall|j: int| 0 <= j < i ==> (#[trigger] self.children[j])@.wf(),
            decreases n - i,
        {
            proof {
                assert(self.children[i as int] == old(self).children[i as int]);
                assert(kids[i as int].wf());
            }
            let d = self.dimensions;
            let child = &mut self.children[i];
            child.layout(fm, d, d);
            let child_box = self.children[i].dimensions.margin_box();
            self.dimensions.content.width = au_add(self.dimensions.content.width, child_box.width);
            i = i + 1;
        }
        self.dimensions.content.height = DEFAULT_LINE_HEIGHT;
        proof {
            self.lemma_view_children();
            assert(self@.children =~= spec_inline_children(kids, fm, start));
        }
    }
}

/// The laid-out tree of a displayed node in the given containing block:
/// the node's box tree, laid out in the containing block with its height
/// taken as zero, while text fits itself to the containing block as given.
pub open spec fn spec_layout_tree<'a>(
    node: &'a StyledNode,
    fm: FontMetrics,
    containing_block: Dimensions,
) -> BoxTree<'a>
    recommends
        node.display != Display::Hidden,
{
    spec_layout(
        spec_build(node),
        fm,
        Dimensions {
            content: Rect { height: 0, ..containing_block.content },
            ..containing_block
        },
        containing_block,
    )
}

/// Transform a style tree into a layout tree.
pub fn layout_tree<'a>(
    node: &'a StyledNode,
    fm: FontMetrics,
    containing_block: Dimensions,
) -> (root: LayoutBox<'a>)
    requires
        node.display != Display::Hidden,
        node.wf(),
        fm.wf(),
        containing_block.wf(),
    ensures
        root@ == spec_layout_tree(node, fm, containing_block),
        root@.wf(),
{
    // Save the initial containing block for the width that text may take.
    let saved_block = containing_block;
    // The layout algorithm expects the container height to start at 0.
    let mut containing_block = containing_block;
    containing_block.content.height = 0;

    let mut root_box = build_layout_tree(node);
    root_box.layout(fm, containing_block, saved_block);
    root_box
}

/// Why a styled tree cannot be laid out.
#[derive(Clone, Copy, Debug, PartialEq, Eq, Structural)]
pub enum LayoutError {
    /// The root node is not displayed, so there is no tree to lay out.
    HiddenRoot,
    /// A length of the styled tree, of the font or of the containing block
    /// lies outside the range of the unit.
    LengthOutOfRange,
}

/// Transform a style tree into a layout tree, after testing what
/// [`layout_tree`] asks of its arguments.
pub fn checked_layout_tree<'a>(
    node: &'a StyledNode,
    fm: FontMetrics,
    containing_block: Dimensions,
) -> (r: Result<LayoutBox<'a>, LayoutError>)
    ensures
        match r {
            Ok(root) => {
                &&& node.display != Display::Hidden
                &&& node.wf() && fm.wf() && containing_block.wf()
                &&& root@ == spec_layout_tree(node, fm, containing_block)
                &&& root@.wf()
            },
            Err(LayoutError::HiddenRoot) => node.display == Display::Hidden,
            Err(LayoutError::LengthOutOfRange) => {
                &&& node.display != Display::Hidden
                &&& !(node.wf() && fm.wf() && containing_block.wf())
            },
        },
{
    if node.display() == Display::Hidden {
        return Err(LayoutError::HiddenRoot);
    }
    if !node.is_wf() || !fm.is_wf() || !containing_block.is_wf() {
        return Err(LayoutError::LengthOutOfRange);
    }
    Ok(layout_tree(node, fm, containing_block))
}

} // verus!
