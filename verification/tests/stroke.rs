use mica::geom::Point;
use mica::stroke::extend_stroke;

#[test]
fn extend_stroke_without_last_point_is_single_point() {
    let p = Point { x: 123, y: -45 };
    let pts = extend_stroke(None, p);
    assert_eq!(pts.len(), 1);
    assert_eq!(pts[0], p);
}

#[test]
fn extend_stroke_emits_fixed_sample_count() {
    let p0 = Point { x: 0, y: 0 };
    let p1 = Point { x: 3, y: 2 };
    let pts = extend_stroke(Some(p0), p1);
    assert_eq!(pts.len(), 1600);
}

#[test]
fn extend_stroke_exact_samples_on_wide_segment() {
    // dx = 1600, dy = 800: sample i sits at (i, i/2), so the first
    // sample is one pixel in and the last is exactly the endpoint.
    let p0 = Point { x: 0, y: 0 };
    let p1 = Point { x: 1600, y: 800 };
    let pts = extend_stroke(Some(p0), p1);
    assert_eq!(pts[0], Point { x: 1, y: 0 });
    assert_eq!(pts[1], Point { x: 2, y: 1 });
    assert_eq!(pts[1599], Point { x: 1600, y: 800 });
    for i in 0..1600usize {
        let want = Point {
            x: (i as i32) + 1,
            y: ((i as i32) + 1) / 2,
        };
        assert_eq!(pts[i], want);
    }
}

#[test]
fn extend_stroke_ends_exactly_at_current_point() {
    let p0 = Point { x: -37, y: 1000 };
    let p1 = Point { x: 250, y: -999 };
    let pts = extend_stroke(Some(p0), p1);
    assert_eq!(pts[1599], p1);
}

#[test]
fn extend_stroke_monotonically_approaches_endpoint() {
    let p0 = Point { x: 10, y: -20 };
    let p1 = Point { x: -500, y: 700 };
    let pts = extend_stroke(Some(p0), p1);
    let mut prev_dx = (p1.x as i64 - p0.x as i64).abs();
    let mut prev_dy = (p1.y as i64 - p0.y as i64).abs();
    for p in &pts {
        let dx = (p1.x as i64 - p.x as i64).abs();
        let dy = (p1.y as i64 - p.y as i64).abs();
        assert!(dx <= prev_dx);
        assert!(dy <= prev_dy);
        prev_dx = dx;
        prev_dy = dy;
    }
    assert_eq!(prev_dx, 0);
    assert_eq!(prev_dy, 0);
}

#[test]
fn extend_stroke_zero_length_segment_repeats_point() {
    let p = Point { x: 7, y: 9 };
    let pts = extend_stroke(Some(p), p);
    assert_eq!(pts.len(), 1600);
    for q in &pts {
        assert_eq!(*q, p);
    }
}

#[test]
fn consecutive_segments_join_without_a_gap() {
    // Button held across two frames with small per-frame motion: the
    // second segment starts exactly where the first one ended.
    let prev = Point { x: 0, y: 0 };
    let mid = Point { x: 100, y: 50 };
    let cur = Point { x: 200, y: 100 };
    let first = extend_stroke(Some(prev), mid);
    let second = extend_stroke(Some(mid), cur);
    assert_eq!(first[1599], mid);
    assert_eq!(second[0], mid);
    assert_eq!(second[1599], cur);
}
