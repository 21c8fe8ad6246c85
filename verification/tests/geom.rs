use mica::geom::{centered_sample, is_pressed, screen_position, Point, PointerSample};

fn held(x: i32, y: i32) -> PointerSample {
    PointerSample { x, y, left_down: true }
}

#[test]
fn hot_zone_hit_inside_absolute_mode() {
    // Zone centered at (0,0), 32 wide and 32 high: a held sample at
    // (10,10) is inside, one at (40,10) is past the width bound.
    assert!(is_pressed(0, 0, 32, 32, held(10, 10)));
    assert!(!is_pressed(0, 0, 32, 32, held(40, 10)));
}

#[test]
fn hot_zone_needs_button_held() {
    let up = PointerSample { x: 10, y: 10, left_down: false };
    assert!(!is_pressed(0, 0, 32, 32, up));
}

#[test]
fn hot_zone_bounds_are_half_open_and_asymmetric() {
    // Left edge center - width/2 is included; the right bound is the
    // width itself, not center + width/2.
    assert!(is_pressed(0, 0, 32, 32, held(-16, 0)));
    assert!(!is_pressed(0, 0, 32, 32, held(-17, 0)));
    assert!(is_pressed(0, 0, 32, 32, held(31, 0)));
    assert!(!is_pressed(0, 0, 32, 32, held(32, 0)));
    assert!(is_pressed(0, 0, 32, 32, held(0, 31)));
    assert!(!is_pressed(0, 0, 32, 32, held(0, 32)));
}

#[test]
fn hot_zone_with_offset_center() {
    // The erase selector's shape: centered at (0,64), 32 by 64.
    assert!(is_pressed(0, 64, 32, 64, held(10, 40)));
    assert!(is_pressed(0, 64, 32, 64, held(10, 32)));
    assert!(!is_pressed(0, 64, 32, 64, held(10, 31)));
    assert!(!is_pressed(0, 64, 32, 64, held(10, 64)));
}

#[test]
fn centered_sample_shifts_by_half_extent() {
    let s = centered_sample(400, 300, true, 800, 600);
    assert_eq!(s.x, 0);
    assert_eq!(s.y, 0);
    assert!(s.left_down);
    let t = centered_sample(0, 0, false, 800, 600);
    assert_eq!(t.x, -400);
    assert_eq!(t.y, -300);
    assert!(!t.left_down);
}

#[test]
fn centered_sample_odd_extent_rounds_down() {
    let s = centered_sample(10, 10, true, 801, 601);
    assert_eq!(s.x, 10 - 400);
    assert_eq!(s.y, 10 - 300);
}

#[test]
fn screen_position_shifts_back_by_half_extent() {
    let p = screen_position(Point { x: -400, y: -300 }, 800, 600);
    assert_eq!(p, Point { x: 0, y: 0 });
    let q = screen_position(Point { x: 0, y: 125 }, 800, 600);
    assert_eq!(q, Point { x: 400, y: 425 });
}
