use app_units::Au;
use box_layout::boxes::{BoxType, LayoutBox};
use box_layout::builder::build_layout_tree;
use box_layout::geometry::{Dimensions, EdgeSizes, Rect};
use box_layout::solver::{checked_layout_tree, layout_tree, LayoutError};
use box_layout::style::{Declaration, Display, NodeType, Property, StyledNode, Value};
use box_layout::text::{FontMetrics, DEFAULT_LINE_HEIGHT};
use box_layout::units::{MAX_AU, MIN_AU};

fn px(v: f64) -> i32 {
    Au::from_f64_px(v).0
}

fn len(v: f64) -> Value {
    Value::Length(px(v))
}

fn decl(property: Property, value: Value) -> Declaration {
    Declaration { property, value }
}

fn block(specified: Vec<Declaration>, children: Vec<StyledNode>) -> StyledNode {
    StyledNode { display: Display::Block, node: NodeType::Element, specified, children }
}

fn inline(specified: Vec<Declaration>, children: Vec<StyledNode>) -> StyledNode {
    StyledNode { display: Display::Inline, node: NodeType::Element, specified, children }
}

fn text(advance_px: f64) -> StyledNode {
    StyledNode {
        display: Display::Inline,
        node: NodeType::Text { advance: px(advance_px) },
        specified: vec![],
        children: vec![],
    }
}

fn viewport(x: f64, y: f64, width: f64, height: f64) -> Dimensions {
    let mut d = Dimensions::default();
    d.content = Rect { x: px(x), y: px(y), width: px(width), height: px(height) };
    d
}

// Ascent 14 px and descent 4 px leave 1.2 px of the 19.2 px line free: the
// content area of a block moves up by 0.6 px, 36 units.
fn metrics() -> FontMetrics {
    FontMetrics { ascent: px(14.0), descent: px(4.0) }
}

const SHIFT: i32 = 36;

fn no_edges() -> EdgeSizes {
    EdgeSizes { left: 0, right: 0, top: 0, bottom: 0 }
}

#[test]
fn block_root_fills_the_viewport_width() {
    let root = block(vec![], vec![]);
    let tree = layout_tree(&root, metrics(), viewport(0.0, 0.0, 800.0, 600.0));
    assert_eq!(
        tree.dimensions.content,
        Rect { x: 0, y: -SHIFT, width: px(800.0), height: 0 }
    );
    assert_eq!(tree.dimensions.margin, no_edges());
    assert_eq!(tree.dimensions.border, no_edges());
    assert_eq!(tree.dimensions.padding, no_edges());
    assert!(tree.children.is_empty());
}

#[test]
fn viewport_height_does_not_push_the_root_down() {
    let root = block(vec![], vec![]);
    let tree = layout_tree(&root, metrics(), viewport(10.0, 20.0, 800.0, 600.0));
    assert_eq!(tree.dimensions.content.x, px(10.0));
    assert_eq!(tree.dimensions.content.y, px(20.0) - SHIFT);
    assert_eq!(tree.dimensions.content.height, 0);
}

#[test]
fn auto_width_and_auto_margins_in_a_container_of_200() {
    let root = block(
        vec![
            decl(Property::Width, Value::Auto),
            decl(Property::MarginLeft, Value::Auto),
            decl(Property::MarginRight, Value::Auto),
        ],
        vec![],
    );
    let tree = layout_tree(&root, metrics(), viewport(0.0, 0.0, 200.0, 0.0));
    assert_eq!(tree.dimensions.content.width, px(200.0));
    assert_eq!(tree.dimensions.margin.left, 0);
    assert_eq!(tree.dimensions.margin.right, 0);
}

#[test]
fn auto_left_margin_in_a_container_of_100() {
    let root = block(
        vec![
            decl(Property::Width, len(50.0)),
            decl(Property::MarginLeft, Value::Auto),
            decl(Property::MarginRight, len(20.0)),
        ],
        vec![],
    );
    let tree = layout_tree(&root, metrics(), viewport(0.0, 0.0, 100.0, 0.0));
    assert_eq!(tree.dimensions.margin.left, px(30.0));
    assert_eq!(tree.dimensions.margin.right, px(20.0));
    assert_eq!(tree.dimensions.content.width, px(50.0));
    assert_eq!(tree.dimensions.content.x, px(30.0));
}

#[test]
fn too_wide_box_in_a_container_of_100() {
    let root = block(
        vec![
            decl(Property::Width, len(150.0)),
            decl(Property::MarginLeft, Value::Auto),
            decl(Property::MarginRight, Value::Auto),
        ],
        vec![],
    );
    let tree = layout_tree(&root, metrics(), viewport(0.0, 0.0, 100.0, 0.0));
    assert_eq!(tree.dimensions.margin.left, 0);
    assert_eq!(tree.dimensions.margin.right, px(-50.0));
    assert_eq!(tree.dimensions.content.width, px(150.0));
}

#[test]
fn block_children_stack_and_parent_height_adds_up() {
    let root = block(
        vec![],
        vec![
            block(vec![decl(Property::Height, len(100.0))], vec![]),
            block(vec![decl(Property::Height, len(50.0))], vec![]),
        ],
    );
    let tree = layout_tree(&root, metrics(), viewport(10.0, 20.0, 800.0, 600.0));
    assert_eq!(
        tree.dimensions.content,
        Rect { x: px(10.0), y: px(20.0) - SHIFT, width: px(800.0), height: px(150.0) }
    );
    assert_eq!(
        tree.children[0].dimensions.content,
        Rect { x: px(10.0), y: px(20.0) - SHIFT, width: px(800.0), height: px(100.0) }
    );
    assert_eq!(
        tree.children[1].dimensions.content,
        Rect { x: px(10.0), y: px(120.0) - SHIFT, width: px(800.0), height: px(50.0) }
    );
}

#[test]
fn declared_height_overrides_the_height_of_the_children() {
    let root = block(
        vec![decl(Property::Height, len(300.0))],
        vec![block(vec![decl(Property::Height, len(100.0))], vec![])],
    );
    let tree = layout_tree(&root, metrics(), viewport(0.0, 0.0, 800.0, 600.0));
    assert_eq!(tree.dimensions.content.height, px(300.0));
    assert_eq!(tree.children[0].dimensions.content.height, px(100.0));
}

#[test]
fn auto_height_keeps_the_height_of_the_children() {
    let root = block(
        vec![decl(Property::Height, Value::Auto)],
        vec![block(vec![decl(Property::Height, len(100.0))], vec![])],
    );
    let tree = layout_tree(&root, metrics(), viewport(0.0, 0.0, 800.0, 600.0));
    assert_eq!(tree.dimensions.content.height, px(100.0));
}

#[test]
fn edges_of_a_block_are_resolved_with_shorthand_fallback() {
    let root = block(
        vec![],
        vec![block(
            vec![
                decl(Property::Width, len(100.0)),
                decl(Property::Height, len(20.0)),
                decl(Property::Margin, len(10.0)),
                decl(Property::BorderWidth, len(1.0)),
                decl(Property::PaddingLeft, len(5.0)),
                decl(Property::MarginBottom, len(3.0)),
            ],
            vec![],
        )],
    );
    let tree = layout_tree(&root, metrics(), viewport(0.0, 0.0, 800.0, 600.0));
    let d = tree.children[0].dimensions;
    assert_eq!(
        d.margin,
        EdgeSizes { left: px(10.0), right: px(683.0), top: px(10.0), bottom: px(3.0) }
    );
    assert_eq!(
        d.border,
        EdgeSizes { left: px(1.0), right: px(1.0), top: px(1.0), bottom: px(1.0) }
    );
    assert_eq!(d.padding, EdgeSizes { left: px(5.0), right: 0, top: 0, bottom: 0 });
    assert_eq!(
        d.content,
        Rect { x: px(16.0), y: px(11.0) - SHIFT, width: px(100.0), height: px(20.0) }
    );
    assert_eq!(d.margin_box().width, px(800.0));
    assert_eq!(d.margin_box().height, px(35.0));
    assert_eq!(tree.dimensions.content.height, px(35.0));
}

#[test]
fn auto_vertical_margins_are_zero() {
    let root = block(
        vec![
            decl(Property::MarginTop, Value::Auto),
            decl(Property::MarginBottom, Value::Auto),
            decl(Property::Margin, len(9.0)),
        ],
        vec![],
    );
    let tree = layout_tree(&root, metrics(), viewport(0.0, 0.0, 100.0, 0.0));
    assert_eq!(tree.dimensions.margin.top, 0);
    assert_eq!(tree.dimensions.margin.bottom, 0);
    assert_eq!(tree.dimensions.margin.left, px(9.0));
    assert_eq!(tree.dimensions.content.y, -SHIFT);
}

#[test]
fn font_without_leading_does_not_shift_blocks() {
    let root = block(vec![], vec![]);
    let fm = FontMetrics { ascent: px(15.0), descent: px(4.2) };
    let tree = layout_tree(&root, fm, viewport(0.0, 50.0, 100.0, 0.0));
    assert_eq!(tree.dimensions.content.y, px(50.0));
}

#[test]
fn text_in_a_block_is_sized_by_its_advance() {
    let root = block(vec![], vec![text(340.0)]);
    let tree = layout_tree(&root, metrics(), viewport(0.0, 0.0, 100.0, 0.0));
    assert_eq!(tree.children.len(), 1);
    let anon = &tree.children[0];
    assert!(matches!(anon.box_type, BoxType::AnonymousBlock));
    let run = &anon.children[0];
    assert_eq!(
        run.dimensions.content,
        Rect { x: 0, y: 0, width: px(340.0), height: DEFAULT_LINE_HEIGHT * 4 }
    );
    assert_eq!(
        anon.dimensions.content,
        Rect { x: 0, y: 0, width: px(100.0), height: DEFAULT_LINE_HEIGHT * 4 }
    );
    assert_eq!(
        tree.dimensions.content,
        Rect { x: 0, y: -SHIFT, width: px(100.0), height: DEFAULT_LINE_HEIGHT * 4 }
    );
}

#[test]
fn inline_boxes_are_placed_left_to_right() {
    let root = block(vec![], vec![text(50.0), text(30.0), text(20.0)]);
    let tree = layout_tree(&root, metrics(), viewport(5.0, 7.0, 200.0, 0.0));
    let anon = &tree.children[0];
    assert_eq!(anon.children.len(), 3);
    assert_eq!(
        anon.children[0].dimensions.content,
        Rect { x: px(5.0), y: px(7.0), width: px(50.0), height: DEFAULT_LINE_HEIGHT }
    );
    assert_eq!(
        anon.children[1].dimensions.content,
        Rect { x: px(55.0), y: px(7.0), width: px(30.0), height: DEFAULT_LINE_HEIGHT }
    );
    assert_eq!(
        anon.children[2].dimensions.content,
        Rect { x: px(85.0), y: px(7.0), width: px(20.0), height: DEFAULT_LINE_HEIGHT }
    );
    assert_eq!(anon.dimensions.content.height, DEFAULT_LINE_HEIGHT);
    assert_eq!(anon.dimensions.content.width, px(200.0));
    assert_eq!(tree.dimensions.content.height, DEFAULT_LINE_HEIGHT);
}

#[test]
fn anonymous_block_is_as_tall_as_its_tallest_child() {
    let root = block(vec![], vec![text(50.0), text(450.0), text(250.0)]);
    let tree = layout_tree(&root, metrics(), viewport(0.0, 0.0, 200.0, 0.0));
    let anon = &tree.children[0];
    assert_eq!(anon.children[0].dimensions.content.height, DEFAULT_LINE_HEIGHT);
    assert_eq!(anon.children[1].dimensions.content.height, DEFAULT_LINE_HEIGHT * 3);
    assert_eq!(anon.children[2].dimensions.content.height, DEFAULT_LINE_HEIGHT * 2);
    assert_eq!(anon.dimensions.content.height, DEFAULT_LINE_HEIGHT * 3);
}

#[test]
fn inline_element_is_one_line_high_and_as_wide_as_its_children() {
    let root = block(
        vec![],
        vec![inline(
            vec![decl(Property::MarginLeft, len(5.0)), decl(Property::Padding, len(2.0))],
            vec![text(50.0), text(25.0)],
        )],
    );
    let tree = layout_tree(&root, metrics(), viewport(0.0, 0.0, 200.0, 0.0));
    let span = &tree.children[0].children[0];
    assert_eq!(
        span.dimensions.margin,
        EdgeSizes { left: px(5.0), right: 0, top: 0, bottom: 0 }
    );
    // Of the padding only top and bottom are resolved.
    assert_eq!(
        span.dimensions.padding,
        EdgeSizes { left: 0, right: 0, top: px(2.0), bottom: px(2.0) }
    );
    assert_eq!(
        span.dimensions.content,
        Rect { x: px(5.0), y: px(2.0), width: px(75.0), height: DEFAULT_LINE_HEIGHT }
    );
    assert_eq!(
        span.children[0].dimensions.content,
        Rect { x: px(5.0), y: px(2.0), width: px(50.0), height: DEFAULT_LINE_HEIGHT }
    );
    assert_eq!(
        span.children[1].dimensions.content,
        Rect { x: px(55.0), y: px(2.0), width: px(25.0), height: DEFAULT_LINE_HEIGHT }
    );
    let anon = &tree.children[0];
    assert_eq!(anon.dimensions.content.height, DEFAULT_LINE_HEIGHT + px(4.0));
}

#[test]
fn text_inside_an_inline_element_measures_against_the_element() {
    // The element is still empty when its first child is laid out, so the
    // text has no width to fit in and takes one line.
    let root = block(vec![], vec![inline(vec![], vec![text(500.0), text(500.0)])]);
    let tree = layout_tree(&root, metrics(), viewport(0.0, 0.0, 100.0, 0.0));
    let span = &tree.children[0].children[0];
    assert_eq!(span.children[0].dimensions.content.height, DEFAULT_LINE_HEIGHT);
    // The second child finds the element 500 px wide: 500 / 500 + 1 lines.
    assert_eq!(span.children[1].dimensions.content.height, DEFAULT_LINE_HEIGHT * 2);
    assert_eq!(span.dimensions.content.width, px(1000.0));
    assert_eq!(span.dimensions.content.height, DEFAULT_LINE_HEIGHT);
}

#[test]
fn inline_root_starts_after_the_width_of_the_viewport() {
    // An inline box is placed after whatever its container already holds,
    // and the viewport comes with its full width.
    let root = text(250.0);
    let tree = layout_tree(&root, metrics(), viewport(3.0, 4.0, 100.0, 50.0));
    assert!(matches!(tree.box_type, BoxType::InlineNode(_)));
    assert_eq!(
        tree.dimensions.content,
        Rect { x: px(103.0), y: px(4.0), width: px(250.0), height: DEFAULT_LINE_HEIGHT * 3 }
    );
}

#[test]
fn anonymous_block_after_a_block_is_as_tall_as_its_own_children() {
    let root = block(
        vec![],
        vec![block(vec![decl(Property::Height, len(100.0))], vec![]), text(10.0)],
    );
    let tree = layout_tree(&root, metrics(), viewport(0.0, 0.0, 200.0, 0.0));
    assert_eq!(tree.children.len(), 2);
    let anon = &tree.children[1];
    assert!(matches!(anon.box_type, BoxType::AnonymousBlock));
    // The text is placed below the block before it.
    assert_eq!(
        anon.children[0].dimensions.content,
        Rect { x: 0, y: px(100.0), width: px(10.0), height: DEFAULT_LINE_HEIGHT }
    );
    // The anonymous block takes over the place and width of its parent; its
    // height is that of its tallest child, not what the parent held before.
    assert_eq!(
        anon.dimensions.content,
        Rect { x: 0, y: 0, width: px(200.0), height: DEFAULT_LINE_HEIGHT }
    );
    assert_eq!(tree.dimensions.content.height, px(100.0) + DEFAULT_LINE_HEIGHT);
}

#[test]
fn anonymous_block_without_children_keeps_the_dimensions_it_takes_over() {
    let mut anon = LayoutBox::new(BoxType::AnonymousBlock);
    let mut containing = viewport(1.0, 2.0, 30.0, 40.0);
    containing.padding.left = px(5.0);
    anon.layout(metrics(), containing, containing);
    assert_eq!(anon.dimensions, containing);
}

#[test]
fn anonymous_block_height_is_the_maximum_even_when_negative() {
    // Text that is measured against a negative width reserves a negative
    // number of lines.
    let a = text(340.0);
    let b = text(540.0);
    let mut anon = LayoutBox::new(BoxType::AnonymousBlock);
    anon.children.push(LayoutBox::new(BoxType::InlineNode(&a)));
    anon.children.push(LayoutBox::new(BoxType::InlineNode(&b)));
    let containing = viewport(0.0, 0.0, 100.0, 500.0);
    let saved = viewport(0.0, 0.0, -100.0, 0.0);
    anon.layout(metrics(), containing, saved);
    assert_eq!(anon.children[0].dimensions.content.height, DEFAULT_LINE_HEIGHT * -2);
    assert_eq!(anon.children[1].dimensions.content.height, DEFAULT_LINE_HEIGHT * -4);
    assert_eq!(anon.dimensions.content.height, DEFAULT_LINE_HEIGHT * -2);
    assert_eq!(anon.dimensions.content.width, px(100.0));
    assert_eq!(anon.children[1].dimensions.content.x, px(340.0));
    assert_eq!(anon.children[1].dimensions.content.y, px(500.0));
}

#[test]
fn anonymous_block_takes_over_the_edges_of_its_parent() {
    let root = block(
        vec![decl(Property::Padding, len(4.0)), decl(Property::Width, len(100.0))],
        vec![text(10.0)],
    );
    let tree = layout_tree(&root, metrics(), viewport(0.0, 0.0, 200.0, 0.0));
    let anon = &tree.children[0];
    assert_eq!(anon.dimensions.padding, tree.dimensions.padding);
    assert_eq!(anon.dimensions.margin, tree.dimensions.margin);
    assert_eq!(
        anon.dimensions.content,
        Rect { x: px(4.0), y: px(4.0), width: px(100.0), height: DEFAULT_LINE_HEIGHT }
    );
    assert_eq!(tree.dimensions.content.height, DEFAULT_LINE_HEIGHT + px(8.0));
}

#[test]
fn hidden_nodes_take_no_space() {
    let hidden = StyledNode {
        display: Display::Hidden,
        node: NodeType::Element,
        specified: vec![decl(Property::Height, len(500.0))],
        children: vec![block(vec![decl(Property::Height, len(500.0))], vec![])],
    };
    let root = block(
        vec![],
        vec![
            block(vec![decl(Property::Height, len(10.0))], vec![]),
            hidden,
            block(vec![decl(Property::Height, len(10.0))], vec![]),
        ],
    );
    let tree = layout_tree(&root, metrics(), viewport(0.0, 0.0, 200.0, 0.0));
    assert_eq!(tree.children.len(), 2);
    assert_eq!(tree.dimensions.content.height, px(20.0));
    assert_eq!(tree.children[1].dimensions.content.y, px(10.0) - SHIFT);
}

#[test]
fn layout_keeps_the_boxes_of_the_built_tree() {
    fn same_boxes(a: &LayoutBox, b: &LayoutBox) -> bool {
        let same_kind = match (a.box_type, b.box_type) {
            (BoxType::BlockNode(m), BoxType::BlockNode(n)) => std::ptr::eq(m, n),
            (BoxType::InlineNode(m), BoxType::InlineNode(n)) => std::ptr::eq(m, n),
            (BoxType::AnonymousBlock, BoxType::AnonymousBlock) => true,
            _ => false,
        };
        same_kind
            && a.children.len() == b.children.len()
            && a.children.iter().zip(b.children.iter()).all(|(x, y)| same_boxes(x, y))
    }
    let root = block(
        vec![],
        vec![
            text(10.0),
            inline(vec![], vec![text(5.0), block(vec![], vec![text(1.0)])]),
            block(vec![], vec![]),
            text(3.0),
        ],
    );
    let built = build_layout_tree(&root);
    let laid = layout_tree(&root, metrics(), viewport(0.0, 0.0, 200.0, 0.0));
    assert!(same_boxes(&built, &laid));
}

#[test]
fn laying_out_a_box_on_its_own() {
    let n = block(vec![decl(Property::Height, len(10.0))], vec![]);
    let mut b = LayoutBox::new(BoxType::BlockNode(&n));
    let mut containing = viewport(0.0, 0.0, 100.0, 0.0);
    containing.content.height = px(40.0);
    b.layout(metrics(), containing, containing);
    assert_eq!(
        b.dimensions.content,
        Rect { x: 0, y: px(40.0) - SHIFT, width: px(100.0), height: px(10.0) }
    );
}

#[test]
fn dimensions_are_listed_parents_first() {
    let root = block(
        vec![],
        vec![
            block(vec![decl(Property::Height, len(10.0))], vec![text(7.0)]),
            text(3.0),
            block(vec![decl(Property::Height, len(20.0))], vec![]),
        ],
    );
    let tree = layout_tree(&root, metrics(), viewport(0.0, 0.0, 200.0, 0.0));
    let all = tree.dimensions_in_order();
    assert_eq!(all.len(), 7);
    assert_eq!(all[0], tree.dimensions);
    assert_eq!(all[1], tree.children[0].dimensions);
    assert_eq!(all[2], tree.children[0].children[0].dimensions);
    assert_eq!(all[3], tree.children[0].children[0].children[0].dimensions);
    assert_eq!(all[4], tree.children[1].dimensions);
    assert_eq!(all[5], tree.children[1].children[0].dimensions);
    assert_eq!(all[6], tree.children[2].dimensions);
    assert_eq!(all[3].content.width, px(7.0));
    assert_eq!(all[5].content.width, px(3.0));
    assert_eq!(all[6].content.height, px(20.0));
    let leaf = LayoutBox::new(BoxType::AnonymousBlock);
    assert_eq!(leaf.dimensions_in_order(), vec![Dimensions::default()]);
}

#[test]
fn hidden_root_cannot_be_laid_out() {
    let mut root = block(vec![], vec![block(vec![], vec![])]);
    root.display = Display::Hidden;
    let r = checked_layout_tree(&root, metrics(), viewport(0.0, 0.0, 100.0, 100.0));
    assert_eq!(r.err(), Some(LayoutError::HiddenRoot));
}

#[test]
fn hidden_root_is_reported_before_lengths() {
    let mut root = block(vec![decl(Property::Width, Value::Length(i32::MAX))], vec![]);
    root.display = Display::Hidden;
    let r = checked_layout_tree(&root, metrics(), viewport(0.0, 0.0, 100.0, 100.0));
    assert_eq!(r.err(), Some(LayoutError::HiddenRoot));
}

#[test]
fn lengths_outside_the_range_cannot_be_laid_out() {
    let deep = block(
        vec![],
        vec![block(vec![], vec![block(vec![decl(Property::Margin, Value::Length(MAX_AU + 1))], vec![])])],
    );
    let r = checked_layout_tree(&deep, metrics(), viewport(0.0, 0.0, 100.0, 100.0));
    assert_eq!(r.err(), Some(LayoutError::LengthOutOfRange));

    let root = block(vec![], vec![]);
    let fm = FontMetrics { ascent: MIN_AU - 1, descent: 0 };
    let r = checked_layout_tree(&root, fm, viewport(0.0, 0.0, 100.0, 100.0));
    assert_eq!(r.err(), Some(LayoutError::LengthOutOfRange));

    let mut containing = viewport(0.0, 0.0, 100.0, 100.0);
    containing.margin.bottom = i32::MIN;
    let r = checked_layout_tree(&root, metrics(), containing);
    assert_eq!(r.err(), Some(LayoutError::LengthOutOfRange));
}

#[test]
fn checked_layout_gives_the_same_tree() {
    let root = block(
        vec![decl(Property::Width, len(50.0))],
        vec![text(120.0), block(vec![decl(Property::Height, len(5.0))], vec![])],
    );
    let containing = viewport(0.0, 0.0, 100.0, 100.0);
    let checked = checked_layout_tree(&root, metrics(), containing).unwrap();
    let plain = layout_tree(&root, metrics(), containing);
    assert_eq!(checked.dimensions_in_order(), plain.dimensions_in_order());
    assert_eq!(checked.dimensions.content.width, px(50.0));
    assert_eq!(checked.dimensions.margin.right, px(50.0));
}

#[test]
fn lengths_at_the_bounds_saturate() {
    let root = block(
        vec![
            decl(Property::Width, Value::Length(MAX_AU)),
            decl(Property::PaddingLeft, Value::Length(MAX_AU)),
            decl(Property::MarginTop, Value::Length(MAX_AU)),
            decl(Property::Height, Value::Length(MIN_AU)),
        ],
        vec![],
    );
    let mut containing = viewport(0.0, 0.0, 100.0, 0.0);
    containing.content.x = MAX_AU;
    containing.content.y = MAX_AU;
    let tree = checked_layout_tree(&root, metrics(), containing).unwrap();
    let d = tree.dimensions;
    assert_eq!(d.content.x, MAX_AU);
    assert_eq!(d.content.y, MAX_AU - SHIFT);
    assert_eq!(d.content.width, MAX_AU);
    assert_eq!(d.content.height, MIN_AU);
    assert_eq!(d.padding.left, MAX_AU);
    // The sum of the declared sizes is pinned, then the underflow, then the
    // right margin that gives way.
    assert_eq!(d.margin.right, px(100.0) - MAX_AU);
    assert_eq!(d.margin_box().width, px(100.0));
    assert_eq!(d.margin_box().height, 0);
    assert_eq!(d.margin_box().x, 0);
    assert_eq!(d.margin_box().y, -SHIFT);
}
