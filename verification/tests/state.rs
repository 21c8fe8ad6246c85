use mica::geom::{Point, PointerSample};
use mica::state::{frame_update, select_tool, AppState, Room, Tool};
use mica::surface::Surface;

fn held(x: i32, y: i32) -> PointerSample {
    PointerSample { x, y, left_down: true }
}

fn idle(x: i32, y: i32) -> PointerSample {
    PointerSample { x, y, left_down: false }
}

#[test]
fn initial_state_is_menu_without_tool() {
    let s = AppState::init();
    assert_eq!(s.room, Room::Menu);
    assert_eq!(s.tool, Tool::NoTool);
    assert_eq!(s.last_point, None);
}

#[test]
fn menu_opens_canvas_then_paint_tool_selects() {
    let mut state = AppState::init();
    let mut surface = Surface::new(64, 64);
    // A frame pressing the open zone (centered space) moves to the
    // canvas with no tool selected yet.
    frame_update(&mut state, &mut surface, held(0, 0), idle(500, 500));
    assert_eq!(state.room, Room::Canvas);
    assert_eq!(state.tool, Tool::NoTool);
    // A later frame pressing the paint selector (absolute space)
    // selects the paint tool.
    frame_update(&mut state, &mut surface, held(0, 0), held(10, 10));
    assert_eq!(state.room, Room::Canvas);
    assert_eq!(state.tool, Tool::Paint);
}

#[test]
fn menu_without_open_press_stays_menu() {
    let mut state = AppState::init();
    let mut surface = Surface::new(64, 64);
    frame_update(&mut state, &mut surface, idle(0, 0), idle(0, 0));
    assert_eq!(state.room, Room::Menu);
    // Pressing outside the open zone changes nothing either.
    frame_update(&mut state, &mut surface, held(400, 0), held(400, 0));
    assert_eq!(state.room, Room::Menu);
}

#[test]
fn canvas_never_returns_to_menu() {
    let mut state = AppState::init();
    let mut surface = Surface::new(64, 64);
    frame_update(&mut state, &mut surface, held(0, 0), idle(500, 500));
    assert_eq!(state.room, Room::Canvas);
    let probes = [
        (held(0, 0), held(0, 0)),
        (idle(0, 0), idle(0, 0)),
        (held(-150, -50), held(10, 40)),
        (idle(299, 99), held(31, 31)),
    ];
    for (c, a) in probes {
        frame_update(&mut state, &mut surface, c, a);
        assert_eq!(state.room, Room::Canvas);
    }
}

#[test]
fn erase_selector_wins_the_tie() {
    assert_eq!(select_tool(Tool::NoTool, true, true), Tool::Erase);
    assert_eq!(select_tool(Tool::Paint, true, true), Tool::Erase);
    assert_eq!(select_tool(Tool::NoTool, true, false), Tool::Paint);
    assert_eq!(select_tool(Tool::Paint, false, true), Tool::Erase);
    assert_eq!(select_tool(Tool::Paint, false, false), Tool::Paint);
}

#[test]
fn erase_selector_pressed_after_paint_frame_switches_tool() {
    let mut state = AppState::init();
    let mut surface = Surface::new(64, 64);
    frame_update(&mut state, &mut surface, held(0, 0), idle(500, 500));
    frame_update(&mut state, &mut surface, idle(0, 0), held(10, 10));
    assert_eq!(state.tool, Tool::Paint);
    frame_update(&mut state, &mut surface, idle(0, 0), held(10, 40));
    assert_eq!(state.tool, Tool::Erase);
}

#[test]
fn drawing_stamps_brush_at_shifted_target() {
    let mut state = AppState::init();
    let mut surface = Surface::new(200, 100);
    // Open the canvas, then select paint (tool selection frame also
    // draws, near the window's left edge).
    frame_update(&mut state, &mut surface, held(0, 0), idle(500, 500));
    frame_update(&mut state, &mut surface, idle(0, 0), held(10, 10));
    assert_eq!(state.tool, Tool::Paint);
    assert_eq!(state.last_point, Some(Point { x: -22, y: 10 }));
    // Draw at absolute (100, 50): the brush target is shifted left by
    // the canvas offset, to (68, 50).
    frame_update(&mut state, &mut surface, idle(0, 0), held(100, 50));
    assert_eq!(state.last_point, Some(Point { x: 68, y: 50 }));
    let px = surface.pixel_at(68, 50);
    assert_eq!(px.a, 255);
    // A pixel far from the stroke's segment stays transparent.
    assert_eq!(surface.pixel_at(150, 90).a, 0);
}

#[test]
fn releasing_button_clears_last_point() {
    let mut state = AppState::init();
    let mut surface = Surface::new(200, 100);
    frame_update(&mut state, &mut surface, held(0, 0), idle(500, 500));
    frame_update(&mut state, &mut surface, idle(0, 0), held(10, 10));
    assert!(state.last_point.is_some());
    frame_update(&mut state, &mut surface, idle(0, 0), idle(100, 50));
    assert_eq!(state.last_point, None);
}

#[test]
fn no_tool_frames_do_not_draw() {
    let mut state = AppState::init();
    let mut surface = Surface::new(200, 100);
    frame_update(&mut state, &mut surface, held(0, 0), idle(500, 500));
    // Button held on the canvas but no tool selected: nothing drawn,
    // no last point recorded.
    frame_update(&mut state, &mut surface, idle(0, 0), held(100, 50));
    assert_eq!(state.last_point, None);
    for y in 0..100 {
        for x in 0..200 {
            assert_eq!(surface.pixel_at(x, y).a, 0);
        }
    }
}

#[test]
fn held_stroke_paints_a_connected_segment() {
    let mut state = AppState::init();
    let mut surface = Surface::new(200, 100);
    frame_update(&mut state, &mut surface, held(0, 0), idle(500, 500));
    frame_update(&mut state, &mut surface, idle(0, 0), held(10, 10));
    assert_eq!(state.tool, Tool::Paint);
    frame_update(&mut state, &mut surface, idle(0, 0), held(42, 50));
    assert_eq!(state.last_point, Some(Point { x: 10, y: 50 }));
    // Move right while held: every point of the segment from (10,50)
    // to (60,50) is stamped, so the whole band is opaque.
    frame_update(&mut state, &mut surface, idle(0, 0), held(92, 50));
    for x in 10..60 {
        assert_eq!(surface.pixel_at(x, 50).a, 255, "at x {}", x);
    }
}
