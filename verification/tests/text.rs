use app_units::Au;
use box_layout::text::{
    line_count, text_height, FontMetrics, DEFAULT_FONT_SIZE, DEFAULT_LINE_HEIGHT,
};
use box_layout::units::{MAX_AU, MIN_AU};

fn px(v: f64) -> i32 {
    Au::from_f64_px(v).0
}

#[test]
fn default_sizes_in_app_units() {
    assert_eq!(DEFAULT_FONT_SIZE, Au::from_f64_px(16.0).0);
    assert_eq!(DEFAULT_LINE_HEIGHT, Au::from_f64_px(16.0 * 1.2).0);
    assert_eq!(DEFAULT_LINE_HEIGHT, 1152);
}

#[test]
fn text_wider_than_the_container_reserves_more_lines() {
    assert_eq!(line_count(px(340.0), px(100.0)), 4);
    assert_eq!(text_height(px(340.0), px(100.0)), DEFAULT_LINE_HEIGHT * 4);
}

#[test]
fn text_narrower_than_the_container_takes_one_line() {
    assert_eq!(line_count(px(50.0), px(100.0)), 1);
    assert_eq!(text_height(px(50.0), px(100.0)), DEFAULT_LINE_HEIGHT);
    assert_eq!(line_count(0, px(100.0)), 1);
}

#[test]
fn exact_multiple_still_adds_a_line() {
    assert_eq!(line_count(px(300.0), px(100.0)), 4);
    assert_eq!(line_count(px(100.0), px(100.0)), 2);
}

#[test]
fn zero_max_width_gives_one_line() {
    assert_eq!(line_count(px(340.0), 0), 1);
    assert_eq!(text_height(px(340.0), 0), DEFAULT_LINE_HEIGHT);
}

#[test]
fn max_width_below_one_pixel_gives_one_line() {
    assert_eq!(line_count(px(340.0), 59), 1);
    assert_eq!(line_count(px(340.0), -59), 1);
    assert_eq!(line_count(px(340.0), 60), 341);
}

#[test]
fn widths_count_in_whole_pixels() {
    // 340 px and 59 units is still 340 whole pixels; 100 px and 59 units is 100.
    assert_eq!(line_count(px(340.0) + 59, px(100.0) + 59), 4);
    // 399 whole pixels in 100 whole pixels.
    assert_eq!(line_count(px(400.0) - 1, px(100.0)), 4);
    assert_eq!(line_count(px(400.0), px(100.0)), 5);
}

#[test]
fn negative_widths_divide_toward_zero() {
    assert_eq!(line_count(px(340.0), px(-100.0)), -2);
    assert_eq!(line_count(px(-340.0), px(100.0)), -2);
    assert_eq!(line_count(px(-340.0), px(-100.0)), 4);
    assert_eq!(line_count(px(-50.0), px(100.0)), 1);
    assert_eq!(text_height(px(340.0), px(-100.0)), DEFAULT_LINE_HEIGHT * -2);
}

#[test]
fn text_height_saturates() {
    assert_eq!(line_count(MAX_AU, 60), MAX_AU / 60 + 1);
    assert_eq!(text_height(MAX_AU, 60), MAX_AU);
    assert_eq!(text_height(MAX_AU, -60), MIN_AU);
}

#[test]
fn line_count_of_extreme_widths() {
    assert_eq!(line_count(i32::MIN, -60), i32::MIN / 60 / -1 + 1);
    assert_eq!(line_count(i32::MAX, 60), i32::MAX / 60 + 1);
}

#[test]
fn half_leading_is_half_of_what_the_line_leaves_free() {
    let fm = FontMetrics { ascent: px(14.0), descent: px(4.0) };
    assert_eq!(fm.half_leading(), 36);
    let fm = FontMetrics { ascent: 0, descent: 0 };
    assert_eq!(fm.half_leading(), DEFAULT_LINE_HEIGHT / 2);
}

#[test]
fn half_leading_rounds_toward_zero() {
    assert_eq!(FontMetrics { ascent: 1000, descent: 151 }.half_leading(), 0);
    assert_eq!(FontMetrics { ascent: 1000, descent: 153 }.half_leading(), 0);
    assert_eq!(FontMetrics { ascent: 1000, descent: 155 }.half_leading(), -1);
    assert_eq!(FontMetrics { ascent: 1000, descent: 300 }.half_leading(), -74);
    assert_eq!(FontMetrics { ascent: 1000, descent: 149 }.half_leading(), 1);
}

#[test]
fn half_leading_saturates_before_halving() {
    let fm = FontMetrics { ascent: MIN_AU, descent: MIN_AU };
    assert_eq!(fm.half_leading(), MAX_AU / 2);
    let fm = FontMetrics { ascent: MAX_AU, descent: MAX_AU };
    assert_eq!(fm.half_leading(), -(MAX_AU / 2));
}

#[test]
fn font_metrics_validity() {
    assert!(FontMetrics { ascent: MAX_AU, descent: MIN_AU }.is_wf());
    assert!(!FontMetrics { ascent: MAX_AU + 1, descent: 0 }.is_wf());
    assert!(!FontMetrics { ascent: 0, descent: i32::MIN }.is_wf());
}
