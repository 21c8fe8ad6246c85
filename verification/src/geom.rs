//! Pointer geometry: positions, per-frame pointer samples, coordinate
//! conversions between window-absolute and window-centered space, and
//! the hot-zone hit test.

use vstd::prelude::*;

verus! {

/// A position in whole pixels, in whichever coordinate space the
/// context fixes (window-absolute, window-centered, or surface space).
#[derive(Clone, Copy, PartialEq, Eq, Structural, Debug)]
pub struct Point {
    pub x: i32,
    pub y: i32,
}

/// One frame's pointer reading: a position and the left-button state.
/// Produced fresh every frame; the coordinate space is the one the
/// caller sampled in.
#[derive(Clone, Copy, PartialEq, Eq, Structural, Debug)]
pub struct PointerSample {
    pub x: i32,
    pub y: i32,
    pub left_down: bool,
}

/// A window-centered coordinate: the raw device coordinate shifted so
/// that the middle of the output (at half its extent) becomes zero.
pub open spec fn spec_centered(raw: int, extent: int) -> int {
    raw - extent / 2
}

/// Convert a raw pointer reading to window-centered space by
/// subtracting half the current output width and height.
pub fn centered_sample(raw_x: i32, raw_y: i32, left_down: bool, width: u32, height: u32) -> (s: PointerSample)
    requires
        width <= i32::MAX,
        height <= i32::MAX,
        i32::MIN <= raw_x - width / 2,
        i32::MIN <= raw_y - height / 2,
    ensures
        s.x == spec_centered(raw_x as int, width as int),
        s.y == spec_centered(raw_y as int, height as int),
        s.left_down == left_down,
{
    let half_w: i32 = (width / 2) as i32;
    let half_h: i32 = (height / 2) as i32;
    PointerSample { x: raw_x - half_w, y: raw_y - half_h, left_down }
}

/// Where a sprite centered at `p` in window-centered space lands on the
/// screen: shifted right and down by half the output extent.
pub fn screen_position(p: Point, width: u32, height: u32) -> (r: Point)
    requires
        width <= i32::MAX,
        height <= i32::MAX,
        p.x + width / 2 <= i32::MAX,
        p.y + height / 2 <= i32::MAX,
    ensures
        r.x == p.x + width / 2,
        r.y == p.y + height / 2,
{
    let half_w: i32 = (width / 2) as i32;
    let half_h: i32 = (height / 2) as i32;
    Point { x: p.x + half_w, y: p.y + half_h }
}

/// The hot-zone rectangle rule: a coordinate lies inside when it is at
/// least `center - size / 2` and strictly below the size itself. The
/// right and bottom bounds are the sizes as absolute coordinates, not
/// `center + size / 2`; this asymmetry is how the zones are laid out.
pub open spec fn in_hot_zone(center_x: int, center_y: int, width: int, height: int, px: int, py: int) -> bool {
    &&& center_x - width / 2 <= px < width
    &&& center_y - height / 2 <= py < height
}

/// A hot zone registers as pressed exactly when the button is held and
/// the sample position lies inside the zone's rectangle.
pub open spec fn spec_is_pressed(center_x: int, center_y: int, width: int, height: int, s: PointerSample) -> bool {
    s.left_down && in_hot_zone(center_x, center_y, width, height, s.x as int, s.y as int)
}

/// Whether the pointer, this frame, presses the rectangular hot zone
/// centered at `(center_x, center_y)`. The sample must already be in
/// the coordinate space the zone is declared in.
pub fn is_pressed(center_x: i32, center_y: i32, width: i32, height: i32, sample: PointerSample) -> (r: bool)
    ensures
        r == spec_is_pressed(center_x as int, center_y as int, width as int, height as int, sample),
{
    let px = sample.x as i64;
    let py = sample.y as i64;
    let cx = center_x as i64;
    let cy = center_y as i64;
    let w = width as i64;
    let h = height as i64;
    // `center - size / 2 <= p` is decided without dividing:
    // `size / 2 >= k` holds exactly when `size >= 2 * k`.
    let in_x = 2 * (cx - px) <= w && px < w;
    let in_y = 2 * (cy - py) <= h && py < h;
    proof {
        assert((center_x - width / 2 <= sample.x) == (2 * (cx - px) <= w));
        assert((center_y - height / 2 <= sample.y) == (2 * (cy - py) <= h));
    }
    sample.left_down && in_x && in_y
}

} // verus!
