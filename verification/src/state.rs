//! The room/tool state machine: which screen is active, which drawing
//! tool is selected, and how one frame of pointer input advances the
//! state and the persistent surface.

use vstd::prelude::*;
use crate::geom::{Point, PointerSample, spec_is_pressed, is_pressed};
use crate::stroke::{extend_stroke, points_view, stroke_targets};
use crate::surface::{Rgba, Surface, stamped_seq};

verus! {

/// The top-level screen the application shows. It starts at the menu
/// and moves to the canvas once, with no way back.
#[derive(Clone, Copy, PartialEq, Eq, Structural, Debug)]
pub enum Room {
    Menu,
    Canvas,
}

/// The active drawing mode on the canvas: nothing yet, painting in
/// opaque black, or erasing to full transparency.
#[derive(Clone, Copy, PartialEq, Eq, Structural, Debug)]
pub enum Tool {
    NoTool,
    Paint,
    Erase,
}

/// The menu's "open the canvas" hot zone, in window-centered space.
pub const OPEN_ZONE_CX: i32 = 0;
pub const OPEN_ZONE_CY: i32 = 0;
pub const OPEN_ZONE_W: i32 = 300;
pub const OPEN_ZONE_H: i32 = 100;

/// The paint-tool selector hot zone, in window-absolute space.
pub const PAINT_ZONE_CX: i32 = 0;
pub const PAINT_ZONE_CY: i32 = 0;
pub const PAINT_ZONE_W: i32 = 32;
pub const PAINT_ZONE_H: i32 = 32;

/// The erase-tool selector hot zone, in window-absolute space.
pub const ERASE_ZONE_CX: i32 = 0;
pub const ERASE_ZONE_CY: i32 = 64;
pub const ERASE_ZONE_W: i32 = 32;
pub const ERASE_ZONE_H: i32 = 64;

/// How far the canvas viewport is shifted right on the screen: strokes
/// land on the surface this much left of the absolute pointer position.
pub const CANVAS_OFFSET_X: i32 = 32;

/// The whole per-frame mutable state of the application's core.
#[derive(Clone, Copy, PartialEq, Debug)]
pub struct AppState {
    /// Which screen is showing.
    pub room: Room,
    /// The tool selected on the canvas.
    pub tool: Tool,
    /// Where the stroke in progress last stamped, if the paint button
    /// has been held continuously since then.
    pub last_point: Option<Point>,
}

impl AppState {
    /// The state at startup: the menu, no tool, no stroke in progress.
    pub fn init() -> (s: AppState)
        ensures
            s.room is Menu,
            s.tool is NoTool,
            s.last_point is None,
    {
        AppState { room: Room::Menu, tool: Tool::NoTool, last_point: Option::None }
    }
}

/// Whether this frame's window-centered sample presses the menu's
/// "open the canvas" zone.
pub open spec fn spec_open_hit(centered: PointerSample) -> bool {
    spec_is_pressed(OPEN_ZONE_CX as int, OPEN_ZONE_CY as int, OPEN_ZONE_W as int, OPEN_ZONE_H as int, centered)
}

/// Whether this frame's window-absolute sample presses the paint-tool
/// selector.
pub open spec fn spec_paint_hit(absolute: PointerSample) -> bool {
    spec_is_pressed(PAINT_ZONE_CX as int, PAINT_ZONE_CY as int, PAINT_ZONE_W as int, PAINT_ZONE_H as int, absolute)
}

/// Whether this frame's window-absolute sample presses the erase-tool
/// selector.
pub open spec fn spec_erase_hit(absolute: PointerSample) -> bool {
    spec_is_pressed(ERASE_ZONE_CX as int, ERASE_ZONE_CY as int, ERASE_ZONE_W as int, ERASE_ZONE_H as int, absolute)
}

/// The room after one frame: the menu gives way to the canvas when its
/// open zone is pressed; the canvas never gives way.
pub open spec fn spec_next_room(room: Room, centered: PointerSample) -> Room {
    if room is Menu && spec_open_hit(centered) {
        Room::Canvas
    } else {
        room
    }
}

/// The tool after both selector zones have been checked. The erase
/// check is evaluated after the paint check, so when both register in
/// one frame the erase choice wins.
pub open spec fn spec_select_tool(tool: Tool, paint_hit: bool, erase_hit: bool) -> Tool {
    if erase_hit {
        Tool::Erase
    } else if paint_hit {
        Tool::Paint
    } else {
        tool
    }
}

/// The tool after one frame: the selectors are live only on the canvas
/// screen, and only from the frame after the one that opened it.
pub open spec fn spec_next_tool(room: Room, tool: Tool, absolute: PointerSample) -> Tool {
    if room is Canvas {
        spec_select_tool(tool, spec_paint_hit(absolute), spec_erase_hit(absolute))
    } else {
        tool
    }
}

/// Whether this frame draws: on the canvas, with a tool selected (the
/// one just chosen counts), while the button is held.
pub open spec fn spec_stroke_active(room: Room, tool_after: Tool, absolute: PointerSample) -> bool {
    room is Canvas && !(tool_after is NoTool) && absolute.left_down
}

/// Where on the surface this frame's pointer position lands: shifted
/// left by the canvas viewport offset.
pub open spec fn spec_brush_target(absolute: PointerSample) -> Point {
    Point { x: (absolute.x - CANVAS_OFFSET_X) as i32, y: absolute.y }
}

/// The last recorded paint point after one frame: the frame's target
/// while drawing goes on, cleared as soon as it stops, untouched off
/// the canvas screen.
pub open spec fn spec_next_last(st: AppState, absolute: PointerSample) -> Option<Point> {
    if st.room is Canvas {
        if spec_stroke_active(st.room, spec_next_tool(st.room, st.tool, absolute), absolute) {
            Option::Some(spec_brush_target(absolute))
        } else {
            Option::None
        }
    } else {
        st.last_point
    }
}

/// The surface contents after one frame: while drawing goes on, one
/// brush stamp at every interpolated point of this frame's segment, in
/// order; otherwise unchanged.
pub open spec fn spec_frame_rows(st: AppState, s: Seq<Seq<Rgba>>, absolute: PointerSample) -> Seq<Seq<Rgba>> {
    let t = spec_next_tool(st.room, st.tool, absolute);
    if spec_stroke_active(st.room, t, absolute) {
        stamped_seq(s, stroke_targets(st.last_point, spec_brush_target(absolute)), t.spec_fill())
    } else {
        s
    }
}

/// Entering the canvas is one-way: once there, no input returns the
/// state to the menu.
pub proof fn lemma_room_one_way(room: Room, centered: PointerSample)
    ensures
        room is Canvas ==> spec_next_room(room, centered) is Canvas,
{
}

/// The tie-break: when the paint and erase zones both register as
/// pressed in one frame, the erase choice, evaluated last, wins.
pub proof fn lemma_tool_tie_break(tool: Tool)
    ensures
        spec_select_tool(tool, true, true) is Erase,
{
}

/// Run both tool selectors' outcomes, paint first, erase second.
pub fn select_tool(tool: Tool, paint_hit: bool, erase_hit: bool) -> (r: Tool)
    ensures
        r == spec_select_tool(tool, paint_hit, erase_hit),
{
    let mut t = tool;
    if paint_hit {
        t = Tool::Paint;
    }
    if erase_hit {
        t = Tool::Erase;
    }
    t
}

/// Advance the core by one frame: take this frame's pointer samples in
/// both coordinate spaces, move the room and tool state, and, while
/// drawing goes on, stamp the brush along the interpolated segment and
/// record the stroke's new last point.
#[verifier::loop_isolation(false)]
pub fn frame_update(state: &mut AppState, surface: &mut Surface, centered: PointerSample, absolute: PointerSample)
    requires
        old(surface).wf(),
        absolute.x - CANVAS_OFFSET_X >= i32::MIN,
    ensures
        final(state).room == spec_next_room(old(state).room, centered),
        final(state).tool == spec_next_tool(old(state).room, old(state).tool, absolute),
        final(state).last_point == spec_next_last(*old(state), absolute),
        final(surface).wf(),
        final(surface).spec_width() == old(surface).spec_width(),
        final(surface).spec_height() == old(surface).spec_height(),
        final(surface).rows() == spec_frame_rows(*old(state), old(surface).rows(), absolute),
{
    match state.room {
        Room::Menu => {
            if is_pressed(OPEN_ZONE_CX, OPEN_ZONE_CY, OPEN_ZONE_W, OPEN_ZONE_H, centered) {
                state.room = Room::Canvas;
            }
        },
        Room::Canvas => {
            let paint_hit = is_pressed(PAINT_ZONE_CX, PAINT_ZONE_CY, PAINT_ZONE_W, PAINT_ZONE_H, absolute);
            let erase_hit = is_pressed(ERASE_ZONE_CX, ERASE_ZONE_CY, ERASE_ZONE_W, ERASE_ZONE_H, absolute);
            state.tool = select_tool(state.tool, paint_hit, erase_hit);
            let active = !matches!(state.tool, Tool::NoTool) && absolute.left_down;
            if active {
                let cur = Point { x: absolute.x - CANVAS_OFFSET_X, y: absolute.y };
                let pts = extend_stroke(state.last_point, cur);
                let ghost s0 = surface.rows();
                let ghost targets = stroke_targets(state.last_point, cur);
                let mut k: usize = 0;
                while k < pts.len()
                    invariant
                        k <= pts@.len(),
                        surface.wf(),
                        surface.spec_width() == old(surface).spec_width(),
                        surface.spec_height() == old(surface).spec_height(),
                        surface.rows() == stamped_seq(s0, targets.take(k as int), state.tool.spec_fill()),
                    decreases pts@.len() - k,
                {
                    let p = pts[k];
                    surface.stamp_brush(p, state.tool);
                    proof {
                        assert(targets.take(k + 1).drop_last() =~= targets.take(k as int));
                        assert(targets.take(k + 1).last() == targets[k as int]);
                        assert(points_view(pts@)[k as int] == (p.x as int, p.y as int));
                    }
                    k = k + 1;
                }
                proof {
                    assert(targets.take(targets.len() as int) =~= targets);
                }
                state.last_point = Option::Some(cur);
            } else {
                state.last_point = Option::None;
            }
        },
    }
}

} // verus!
