//! Font measurements and the size of a run of text.
//!
//! Text is not broken into lines. A run is as wide as its advance width and
//! as tall as the lines it would need if it were wrapped at the available
//! width, counted in whole pixels.

use crate::units::{
    au_scale, au_sub, au_to_px, clamp, div_toward_zero, in_range, is_in_range,
    lemma_div_toward_zero_bounded, minus, whole_px,
};
use vstd::prelude::*;

verus! {

/// The default font size, 16 px, in app units. Text is measured at this size.
pub const DEFAULT_FONT_SIZE: i32 = 960;

/// The default line height, 1.2 times the default font size, in app units.
pub const DEFAULT_LINE_HEIGHT: i32 = 1152;

/// The vertical extents of the font at the default size, in app units.
#[derive(Clone, Copy, Debug, PartialEq, Eq, Structural)]
pub struct FontMetrics {
    pub ascent: i32,
    pub descent: i32,
}

impl FontMetrics {
    /// Both extents are lengths the unit can hold.
    pub open spec fn wf(self) -> bool {
        in_range(self.ascent as int) && in_range(self.descent as int)
    }

    /// Half of what the default line height leaves free above and below the
    /// glyphs, rounded toward zero.
    pub open spec fn spec_half_leading(self) -> i32 {
        div_toward_zero(
            minus(minus(DEFAULT_LINE_HEIGHT, self.ascent), self.descent) as int,
            2,
        ) as i32
    }

    /// Tests whether both extents are lengths the unit can hold.
    pub fn is_wf(&self) -> (r: bool)
        ensures
            r == self.wf(),
    {
        is_in_range(self.ascent) && is_in_range(self.descent)
    }

    /// Half of what the default line height leaves free above and below the
    /// glyphs, rounded toward zero.
    #[verifier::when_used_as_spec(spec_half_leading)]
    pub fn half_leading(self) -> (r: i32)
        requires
            self.wf(),
        ensures
            r == self.spec_half_leading(),
            in_range(r as int),
    {
        au_sub(au_sub(DEFAULT_LINE_HEIGHT, self.ascent), self.descent) / 2
    }
}

/// The lines reserved for text of the given advance width where
/// `max_width` is available: one more than the whole pixels of the advance
/// divided by the whole pixels of `max_width`, rounded toward zero; one line
/// where `max_width` is less than a pixel.
pub open spec fn spec_line_count(advance: i32, max_width: i32) -> int {
    if whole_px(max_width) != 0 {
        div_toward_zero(whole_px(advance) as int, whole_px(max_width) as int) + 1
    } else {
        1
    }
}

/// The height reserved for text of the given advance width where
/// `max_width` is available: the default line height once for each line.
pub open spec fn spec_text_height(advance: i32, max_width: i32) -> i32 {
    clamp(DEFAULT_LINE_HEIGHT * spec_line_count(advance, max_width)) as i32
}

/// Counts the lines reserved for text of the given advance width.
pub fn line_count(advance: i32, max_width: i32) -> (n: i32)
    ensures
        n == spec_line_count(advance, max_width),
{
    let width_px = au_to_px(advance);
    let max_px = au_to_px(max_width);
    if max_px != 0 {
        proof {
            lemma_div_toward_zero_bounded(width_px as int, max_px as int);
        }
        width_px / max_px + 1
    } else {
        1
    }
}

/// The height reserved for text of the given advance width.
#[verifier::when_used_as_spec(spec_text_height)]
pub fn text_height(advance: i32, max_width: i32) -> (h: i32)
    ensures
        h == spec_text_height(advance, max_width),
        in_range(h as int),
{
    au_scale(DEFAULT_LINE_HEIGHT, line_count(advance, max_width))
}

} // verus!
