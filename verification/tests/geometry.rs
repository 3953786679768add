use app_units::Au;
use box_layout::geometry::{Dimensions, EdgeSizes, Rect};
use box_layout::units::{is_in_range, saturate, AU_PER_PX, MAX_AU, MIN_AU};

fn px(v: f64) -> i32 {
    Au::from_f64_px(v).0
}

fn edges(left: i32, right: i32, top: i32, bottom: i32) -> EdgeSizes {
    EdgeSizes { left, right, top, bottom }
}

#[test]
fn unit_constants_are_those_of_app_units() {
    assert_eq!(AU_PER_PX, app_units::AU_PER_PX);
    assert_eq!(MAX_AU, app_units::MAX_AU.0);
    assert_eq!(MIN_AU, app_units::MIN_AU.0);
}

#[test]
fn range_test_matches_bounds() {
    assert!(is_in_range(0));
    assert!(is_in_range(MAX_AU));
    assert!(is_in_range(MIN_AU));
    assert!(!is_in_range(MAX_AU + 1));
    assert!(!is_in_range(MIN_AU - 1));
    assert!(!is_in_range(i32::MAX));
    assert!(!is_in_range(i32::MIN));
}

#[test]
fn saturate_pins_to_the_range() {
    assert_eq!(saturate(0), 0);
    assert_eq!(saturate(-17), -17);
    assert_eq!(saturate(MAX_AU as i64), MAX_AU);
    assert_eq!(saturate(MAX_AU as i64 + 1), MAX_AU);
    assert_eq!(saturate(MIN_AU as i64 - 1), MIN_AU);
    assert_eq!(saturate(i64::MAX), MAX_AU);
    assert_eq!(saturate(i64::MIN), MIN_AU);
}

#[test]
fn default_dimensions_are_zero() {
    let d = Dimensions::default();
    assert_eq!(d.content, Rect { x: 0, y: 0, width: 0, height: 0 });
    assert_eq!(d.padding, edges(0, 0, 0, 0));
    assert_eq!(d.border, edges(0, 0, 0, 0));
    assert_eq!(d.margin, edges(0, 0, 0, 0));
    assert_eq!(Rect::default(), Rect { x: 0, y: 0, width: 0, height: 0 });
    assert_eq!(EdgeSizes::default(), edges(0, 0, 0, 0));
}

#[test]
fn expanded_by_moves_corner_and_grows_extent() {
    let r = Rect { x: px(10.0), y: px(20.0), width: px(30.0), height: px(40.0) };
    let g = r.expanded_by(edges(px(1.0), px(2.0), px(3.0), px(4.0)));
    assert_eq!(g, Rect { x: px(9.0), y: px(17.0), width: px(33.0), height: px(47.0) });
}

#[test]
fn expanded_by_negative_edges_shrinks() {
    let r = Rect { x: 100, y: 100, width: 50, height: 60 };
    let g = r.expanded_by(edges(-10, -5, -20, -1));
    assert_eq!(g, Rect { x: 110, y: 120, width: 35, height: 39 });
}

#[test]
fn expanded_by_zero_edges_is_identity() {
    let r = Rect { x: -7, y: 9, width: 0, height: 13 };
    assert_eq!(r.expanded_by(edges(0, 0, 0, 0)), r);
}

#[test]
fn expanded_by_saturates_at_the_bounds() {
    let r = Rect { x: MIN_AU, y: MIN_AU + 5, width: MAX_AU, height: MAX_AU - 3 };
    let g = r.expanded_by(edges(10, 20, 10, 1));
    assert_eq!(g.x, MIN_AU);
    assert_eq!(g.y, MIN_AU);
    assert_eq!(g.width, MAX_AU);
    assert_eq!(g.height, MAX_AU);
}

#[test]
fn expanded_by_saturates_step_by_step() {
    // The left edge is added first and pinned, then the right edge is added.
    let r = Rect { x: 0, y: 0, width: MAX_AU, height: 0 };
    let g = r.expanded_by(edges(10, -10, 0, 0));
    assert_eq!(g.width, MAX_AU - 10);
}

#[test]
fn boxes_nest_from_content_to_margin() {
    let d = Dimensions {
        content: Rect { x: 100, y: 200, width: 300, height: 400 },
        padding: edges(1, 2, 3, 4),
        border: edges(10, 20, 30, 40),
        margin: edges(100, 200, 300, 400),
    };
    assert_eq!(d.padding_box(), Rect { x: 99, y: 197, width: 303, height: 407 });
    assert_eq!(d.border_box(), Rect { x: 89, y: 167, width: 333, height: 477 });
    assert_eq!(d.margin_box(), Rect { x: -11, y: -133, width: 633, height: 1177 });
}

fn contains(outer: Rect, inner: Rect) -> bool {
    outer.x <= inner.x
        && outer.y <= inner.y
        && inner.x + inner.width <= outer.x + outer.width
        && inner.y + inner.height <= outer.y + outer.height
}

#[test]
fn each_box_contains_the_one_inside() {
    let d = Dimensions {
        content: Rect { x: px(8.0), y: px(8.0), width: px(120.5), height: px(33.0) },
        padding: edges(px(4.0), px(0.0), px(2.5), px(1.0)),
        border: edges(px(1.0), px(1.0), px(1.0), px(1.0)),
        margin: edges(px(0.0), px(16.0), px(10.0), px(0.0)),
    };
    assert!(contains(d.padding_box(), d.content));
    assert!(contains(d.border_box(), d.padding_box()));
    assert!(contains(d.margin_box(), d.border_box()));
    assert_eq!(d.margin_box().width, d.content.width + px(4.0) + px(2.0) + px(16.0));
    assert_eq!(d.margin_box().height, d.content.height + px(3.5) + px(2.0) + px(10.0));
    assert_eq!(d.margin_box().x, d.content.x - px(5.0));
    assert_eq!(d.margin_box().y, d.content.y - px(13.5));
}

#[test]
fn negative_margin_breaks_containment() {
    let d = Dimensions {
        content: Rect { x: 0, y: 0, width: 100, height: 100 },
        padding: edges(0, 0, 0, 0),
        border: edges(0, 0, 0, 0),
        margin: edges(-10, 0, 0, 0),
    };
    assert!(!contains(d.margin_box(), d.border_box()));
}

#[test]
fn validity_checks() {
    assert!(Rect { x: 0, y: MIN_AU, width: MAX_AU, height: 1 }.is_wf());
    assert!(!Rect { x: 0, y: 0, width: MAX_AU + 1, height: 1 }.is_wf());
    assert!(!Rect { x: i32::MIN, y: 0, width: 0, height: 1 }.is_wf());
    assert!(edges(1, 2, 3, 4).is_wf());
    assert!(!edges(1, 2, 3, i32::MAX).is_wf());
    let mut d = Dimensions::default();
    assert!(d.is_wf());
    d.border.top = MIN_AU - 1;
    assert!(!d.is_wf());
}
