//! The stroke interpolator: between the last recorded paint point and
//! the current pointer point it emits a fixed number of sub-pixel
//! steps, so that fast pointer motion still leaves a connected stroke.

use vstd::prelude::*;
use vstd::arithmetic::div_mod::{lemma_basic_div, lemma_div_is_ordered, lemma_div_multiples_vanish, lemma_div_pos_is_pos};
use vstd::arithmetic::mul::{lemma_mul_inequality, lemma_mul_nonnegative};
use vstd::math::abs;
use crate::geom::Point;

verus! {

/// How many samples one segment is divided into. Chosen large against
/// typical per-frame pointer deltas, so each step is below a pixel.
pub const STROKE_SAMPLES: u64 = 1600;

/// How far sample `i` (1-based) of a segment has moved along one axis:
/// the exact offset `i * delta / STROKE_SAMPLES`, rounded toward the
/// segment's starting point.
pub open spec fn interp_offset(delta: int, i: int) -> int {
    if delta >= 0 {
        (i * delta) / (STROKE_SAMPLES as int)
    } else {
        -((i * (-delta)) / (STROKE_SAMPLES as int))
    }
}

/// The pixel positions the interpolator emits for the segment from
/// `p0` to `p1`: sample `i` (0-based here) sits at
/// `p0 + (i + 1) * (p1 - p0) / STROKE_SAMPLES`, per axis.
pub open spec fn segment_samples(p0: Point, p1: Point) -> Seq<(int, int)> {
    Seq::new(
        STROKE_SAMPLES as nat,
        |i: int|
            (
                p0.x + interp_offset(p1.x - p0.x, i + 1),
                p0.y + interp_offset(p1.y - p0.y, i + 1),
            ),
    )
}

/// What one frame's stroke covers: the current point alone when no
/// stroke was in progress, else the whole interpolated segment from the
/// last recorded point.
pub open spec fn stroke_targets(last: Option<Point>, current: Point) -> Seq<(int, int)> {
    match last {
        Option::None => seq![(current.x as int, current.y as int)],
        Option::Some(p0) => segment_samples(p0, current),
    }
}

/// The emitted points as exact integer pairs.
pub open spec fn points_view(s: Seq<Point>) -> Seq<(int, int)> {
    s.map_values(|p: Point| (p.x as int, p.y as int))
}

/// Per axis, the sample offsets never overshoot: they run from the
/// start of the segment toward `delta` and stay between the two.
pub proof fn lemma_interp_offset_bounds(delta: int, i: int)
    requires
        1 <= i <= STROKE_SAMPLES,
    ensures
        delta >= 0 ==> 0 <= interp_offset(delta, i) <= delta,
        delta < 0 ==> delta <= interp_offset(delta, i) <= 0,
{
    let n = STROKE_SAMPLES as int;
    if delta >= 0 {
        lemma_mul_nonnegative(i, delta);
        lemma_div_pos_is_pos(i * delta, n);
        lemma_mul_inequality(i, n, delta);
        lemma_div_is_ordered(i * delta, n * delta, n);
        lemma_div_multiples_vanish(delta, n);
    } else {
        lemma_mul_nonnegative(i, -delta);
        lemma_div_pos_is_pos(i * (-delta), n);
        lemma_mul_inequality(i, n, -delta);
        lemma_div_is_ordered(i * (-delta), n * (-delta), n);
        lemma_div_multiples_vanish(-delta, n);
    }
}

/// The final sample of a segment lands exactly on the segment's end.
pub proof fn lemma_interp_offset_full(delta: int)
    ensures
        interp_offset(delta, STROKE_SAMPLES as int) == delta,
{
    let n = STROKE_SAMPLES as int;
    if delta >= 0 {
        lemma_div_multiples_vanish(delta, n);
    } else {
        lemma_div_multiples_vanish(-delta, n);
    }
}

/// Per axis, later samples are never farther from the segment's end
/// than earlier ones: the emitted pixels approach the current point.
pub proof fn lemma_interp_offset_monotone(delta: int, i: int, j: int)
    requires
        1 <= i <= j <= STROKE_SAMPLES,
    ensures
        abs(delta - interp_offset(delta, j)) <= abs(delta - interp_offset(delta, i)),
{
    let n = STROKE_SAMPLES as int;
    lemma_interp_offset_bounds(delta, i);
    lemma_interp_offset_bounds(delta, j);
    if delta >= 0 {
        lemma_mul_inequality(i, j, delta);
        lemma_div_is_ordered(i * delta, j * delta, n);
    } else {
        lemma_mul_inequality(i, j, -delta);
        lemma_div_is_ordered(i * (-delta), j * (-delta), n);
    }
}

/// The exact, unrounded position of sample `i` along one axis, scaled
/// by `STROKE_SAMPLES` so that it stays an integer.
pub open spec fn scaled_sample(a0: int, a1: int, i: int) -> int {
    (STROKE_SAMPLES as int) * a0 + i * (a1 - a0)
}

/// The scaled distance left between sample `i` and the segment's end.
pub open spec fn scaled_gap(a0: int, a1: int, i: int) -> int {
    abs((STROKE_SAMPLES as int) * a1 - scaled_sample(a0, a1, i)) as int
}

/// Along an axis where the segment actually moves, every interpolation
/// step brings the exact sample position strictly closer to the
/// segment's end: the emitted sequence strictly approaches the current
/// point, in units of a `STROKE_SAMPLES`-th of a pixel.
pub proof fn lemma_stroke_strictly_approaches(a0: int, a1: int, i: int)
    requires
        a0 != a1,
        1 <= i < STROKE_SAMPLES,
    ensures
        scaled_gap(a0, a1, i + 1) < scaled_gap(a0, a1, i),
{
    let n = STROKE_SAMPLES as int;
    let d = a1 - a0;
    assert(n * a1 - (n * a0 + i * d) == (n - i) * d) by (nonlinear_arith)
        requires d == a1 - a0;
    assert(n * a1 - (n * a0 + (i + 1) * d) == (n - i - 1) * d) by (nonlinear_arith)
        requires d == a1 - a0;
    if d > 0 {
        assert(0 <= (n - i - 1) * d && (n - i - 1) * d < (n - i) * d) by (nonlinear_arith)
            requires 0 <= n - i - 1 && d > 0;
    } else {
        assert((n - i) * d < (n - i - 1) * d && (n - i - 1) * d <= 0) by (nonlinear_arith)
            requires 0 <= n - i - 1 && d < 0;
    }
}

/// Continuity across frames: while the button stays held, this frame's
/// segment ends exactly at this frame's sampled point, and, as long as
/// the pointer moved by fewer than `STROKE_SAMPLES` pixels per axis
/// since the previous frame (so every interpolation step is below a
/// pixel), its first sample sits exactly on the point where the
/// previous frame's segment ended.
pub proof fn lemma_stroke_continuity(prev: Point, mid: Point, cur: Point)
    requires
        abs(cur.x - mid.x) < STROKE_SAMPLES,
        abs(cur.y - mid.y) < STROKE_SAMPLES,
    ensures
        stroke_targets(Some(prev), mid).last() == (mid.x as int, mid.y as int),
        stroke_targets(Some(mid), cur).first() == (mid.x as int, mid.y as int),
        stroke_targets(Some(mid), cur).last() == (cur.x as int, cur.y as int),
{
    lemma_interp_offset_full(mid.x - prev.x);
    lemma_interp_offset_full(mid.y - prev.y);
    lemma_interp_offset_full(cur.x - mid.x);
    lemma_interp_offset_full(cur.y - mid.y);
    let n = STROKE_SAMPLES as int;
    let dx = cur.x - mid.x;
    let dy = cur.y - mid.y;
    assert(interp_offset(dx, 1) == 0) by {
        if dx >= 0 {
            assert(1 * dx == dx);
            assert(dx / n == 0) by { lemma_basic_div(dx, n); }
        } else {
            assert(1 * (-dx) == -dx);
            assert((-dx) / n == 0) by { lemma_basic_div(-dx, n); }
        }
    }
    assert(interp_offset(dy, 1) == 0) by {
        if dy >= 0 {
            assert(1 * dy == dy);
            assert(dy / n == 0) by { lemma_basic_div(dy, n); }
        } else {
            assert(1 * (-dy) == -dy);
            assert((-dy) / n == 0) by { lemma_basic_div(-dy, n); }
        }
    }
}

/// One coordinate of interpolation sample `i`, computed exactly.
fn interp_coord(a0: i32, a1: i32, i: u64) -> (r: i32)
    requires
        1 <= i <= STROKE_SAMPLES,
    ensures
        r as int == a0 + interp_offset(a1 - a0, i as int),
{
    let d: i64 = a1 as i64 - a0 as i64;
    let ghost n = STROKE_SAMPLES as int;
    if d >= 0 {
        let du: u64 = d as u64;
        proof {
            lemma_mul_nonnegative(i as int, du as int);
            lemma_div_pos_is_pos((i as int) * (du as int), n);
            lemma_mul_inequality(i as int, n, du as int);
            lemma_div_is_ordered((i as int) * (du as int), n * (du as int), n);
            lemma_div_multiples_vanish(du as int, n);
        }
        let num: u64 = i * du;
        let off: u64 = num / STROKE_SAMPLES;
        let rx: i64 = a0 as i64 + off as i64;
        rx as i32
    } else {
        let du: u64 = (-d) as u64;
        proof {
            lemma_mul_nonnegative(i as int, du as int);
            lemma_div_pos_is_pos((i as int) * (du as int), n);
            lemma_mul_inequality(i as int, n, du as int);
            lemma_div_is_ordered((i as int) * (du as int), n * (du as int), n);
            lemma_div_multiples_vanish(du as int, n);
        }
        let num: u64 = i * du;
        let off: u64 = num / STROKE_SAMPLES;
        let rx: i64 = a0 as i64 - off as i64;
        rx as i32
    }
}

/// Extend the stroke to the current pointer point. With no stroke in
/// progress the result is the current point alone; otherwise it is the
/// full interpolated segment from the last recorded point, whose final
/// sample is exactly the current point.
pub fn extend_stroke(last: Option<Point>, current: Point) -> (r: Vec<Point>)
    ensures
        points_view(r@) == stroke_targets(last, current),
{
    match last {
        Option::None => {
            let mut v: Vec<Point> = Vec::new();
            v.push(current);
            proof {
                assert(points_view(v@) =~= stroke_targets(Option::None, current));
            }
            v
        },
        Option::Some(p0) => {
            let mut v: Vec<Point> = Vec::new();
            let mut i: u64 = 1;
            while i <= STROKE_SAMPLES
                invariant
                    1 <= i <= STROKE_SAMPLES + 1,
                    v@.len() == i - 1,
                    forall|j: int|
                        0 <= j < i - 1 ==> (
                            (#[trigger] v@[j]).x as int == p0.x + interp_offset(current.x - p0.x, j + 1)
                            && v@[j].y as int == p0.y + interp_offset(current.y - p0.y, j + 1)
                        ),
                decreases STROKE_SAMPLES + 1 - i,
            {
                let x = interp_coord(p0.x, current.x, i);
                let y = interp_coord(p0.y, current.y, i);
                v.push(Point { x, y });
                i = i + 1;
            }
            proof {
                assert(points_view(v@) =~= stroke_targets(Option::Some(p0), current));
            }
            v
        },
    }
}

} // verus!
