//! The persistent drawing surface and the brush: a grid of RGBA pixels
//! that lives for the whole session, mutated only by square brush
//! stamps that paint opaque black or erase to full transparency.

use vstd::prelude::*;
use crate::geom::Point;
use crate::state::Tool;

verus! {

/// One pixel of the surface, as red, green, blue and alpha channels.
#[derive(Clone, Copy, PartialEq, Eq, Structural, Debug)]
pub struct Rgba {
    pub r: u8,
    pub g: u8,
    pub b: u8,
    pub a: u8,
}

/// A fully transparent pixel: what the surface starts as, and what the
/// erase tool restores.
pub open spec fn transparent() -> Rgba {
    Rgba { r: 0, g: 0, b: 0, a: 0 }
}

/// An opaque black pixel: what the paint tool lays down.
pub open spec fn opaque_black() -> Rgba {
    Rgba { r: 0, g: 0, b: 0, a: 255 }
}

impl Tool {
    /// The fill each tool stamps with. The no-tool value stamps
    /// nothing, so its fill is never used.
    pub open spec fn spec_fill(self) -> Rgba {
        match self {
            Tool::Erase => transparent(),
            _ => opaque_black(),
        }
    }

    /// The brush fill of this tool.
    pub fn fill(self) -> (r: Rgba)
        ensures
            r == self.spec_fill(),
    {
        match self {
            Tool::Erase => Rgba { r: 0, g: 0, b: 0, a: 0 },
            _ => Rgba { r: 0, g: 0, b: 0, a: 255 },
        }
    }
}

/// Half the brush's side: the stamp is a square of twice this extent.
pub const BRUSH_HALF: i32 = 8;

/// Whether pixel `(x, y)` lies under the square brush stamp centered
/// at `(cx, cy)`: a half-open square of side twice `BRUSH_HALF`.
pub open spec fn in_stamp(cx: int, cy: int, x: int, y: int) -> bool {
    &&& cx - BRUSH_HALF <= x < cx + BRUSH_HALF
    &&& cy - BRUSH_HALF <= y < cy + BRUSH_HALF
}

/// One surface row after a stamp centered at `(cx, cy)`: the pixels
/// under the stamp take the fill, the rest keep their value. `y` is
/// the row's own position.
pub open spec fn stamped_row(row: Seq<Rgba>, cx: int, cy: int, y: int, fill: Rgba) -> Seq<Rgba> {
    Seq::new(row.len(), |x: int| if in_stamp(cx, cy, x, y) { fill } else { row[x] })
}

/// The whole surface after one brush stamp centered at `(cx, cy)`.
pub open spec fn stamped(s: Seq<Seq<Rgba>>, cx: int, cy: int, fill: Rgba) -> Seq<Seq<Rgba>> {
    Seq::new(s.len(), |y: int| stamped_row(s[y], cx, cy, y, fill))
}

/// The surface after one stamp of the given tool: unchanged when no
/// tool is active, else stamped with the tool's fill.
pub open spec fn spec_stamp(s: Seq<Seq<Rgba>>, cx: int, cy: int, tool: Tool) -> Seq<Seq<Rgba>> {
    if tool is NoTool {
        s
    } else {
        stamped(s, cx, cy, tool.spec_fill())
    }
}

/// The surface after a stamp at each point of `pts`, applied in order.
pub open spec fn stamped_seq(s: Seq<Seq<Rgba>>, pts: Seq<(int, int)>, fill: Rgba) -> Seq<Seq<Rgba>>
    decreases pts.len(),
{
    if pts.len() == 0 {
        s
    } else {
        stamped(stamped_seq(s, pts.drop_last(), fill), pts.last().0, pts.last().1, fill)
    }
}

/// Stamping is idempotent: the same brush fill applied twice at the
/// same point leaves exactly the pixels one application leaves.
pub proof fn lemma_stamp_idempotent(s: Seq<Seq<Rgba>>, cx: int, cy: int, fill: Rgba)
    ensures
        stamped(stamped(s, cx, cy, fill), cx, cy, fill) == stamped(s, cx, cy, fill),
{
    let once = stamped(s, cx, cy, fill);
    let twice = stamped(once, cx, cy, fill);
    assert forall|y: int| 0 <= y < twice.len() implies twice[y] =~= once[y] by {
        assert(forall|x: int| 0 <= x < once[y].len() ==> twice[y][x] == once[y][x]);
    }
    assert(twice =~~= once);
}

/// Painting a point and then erasing it restores full transparency
/// under the whole brush square: the result is exactly what erasing
/// alone leaves, and every covered pixel ends with alpha zero.
pub proof fn lemma_paint_then_erase(s: Seq<Seq<Rgba>>, cx: int, cy: int)
    ensures
        stamped(stamped(s, cx, cy, opaque_black()), cx, cy, transparent())
            == stamped(s, cx, cy, transparent()),
        forall|y: int, x: int|
            0 <= y < s.len() && 0 <= x < s[y].len() && in_stamp(cx, cy, x, y)
                ==> stamped(stamped(s, cx, cy, opaque_black()), cx, cy, transparent())[y][x].a == 0,
{
    let painted = stamped(s, cx, cy, opaque_black());
    let round = stamped(painted, cx, cy, transparent());
    let erased = stamped(s, cx, cy, transparent());
    assert forall|y: int| 0 <= y < round.len() implies round[y] =~= erased[y] by {
        assert(forall|x: int| 0 <= x < s[y].len() ==> round[y][x] == erased[y][x]);
    }
    assert(round =~~= erased);
}

/// The persistent pixel surface. Allocated once, sized independently of
/// the window, and never reset: erasing only clears alpha.
pub struct Surface {
    width: u32,
    height: u32,
    pixels: Vec<Vec<Rgba>>,
}

impl Surface {
    /// The surface contents, row by row.
    pub closed spec fn rows(self) -> Seq<Seq<Rgba>> {
        self.pixels@.map_values(|r: Vec<Rgba>| r@)
    }

    /// The surface's width in pixels.
    pub closed spec fn spec_width(self) -> int {
        self.width as int
    }

    /// The surface's height in pixels.
    pub closed spec fn spec_height(self) -> int {
        self.height as int
    }

    /// Well-formed: one row per unit of height, each of the full width.
    pub open spec fn wf(self) -> bool {
        &&& self.rows().len() == self.spec_height()
        &&& forall|y: int| 0 <= y < self.spec_height() ==> (#[trigger] self.rows()[y]).len() == self.spec_width()
    }

    /// The pixel at column `x` of row `y`.
    pub open spec fn pixel(self, x: int, y: int) -> Rgba {
        self.rows()[y][x]
    }

    /// A fresh, fully transparent surface of the given size.
    pub fn new(width: u32, height: u32) -> (s: Surface)
        ensures
            s.wf(),
            s.spec_width() == width,
            s.spec_height() == height,
            forall|y: int, x: int|
                0 <= y < height && 0 <= x < width ==> #[trigger] s.pixel(x, y) == transparent(),
    {
        let mut pixels: Vec<Vec<Rgba>> = Vec::new();
        let mut y: u32 = 0;
        while y < height
            invariant
                y <= height,
                pixels@.len() == y,
                forall|yy: int| 0 <= yy < y ==> (#[trigger] pixels@[yy])@.len() == width,
                forall|yy: int, xx: int|
                    0 <= yy < y && 0 <= xx < width ==> (#[trigger] pixels@[yy]@[xx]) == transparent(),
            decreases height - y,
        {
            let mut row: Vec<Rgba> = Vec::new();
            let mut x: u32 = 0;
            while x < width
                invariant
                    x <= width,
                    row@.len() == x,
                    forall|xx: int| 0 <= xx < x ==> (#[trigger] row@[xx]) == transparent(),
                decreases width - x,
            {
                row.push(Rgba { r: 0, g: 0, b: 0, a: 0 });
                x = x + 1;
            }
            pixels.push(row);
            y = y + 1;
        }
        let s = Surface { width, height, pixels };
        proof {
            assert(forall|yy: int| 0 <= yy < height ==> (#[trigger] s.rows()[yy]) == s.pixels@[yy]@);
        }
        s
    }

    /// The surface's width, for callers that composite or clip.
    pub fn width(&self) -> (r: u32)
        ensures
            r == self.spec_width(),
    {
        self.width
    }

    /// The surface's height.
    pub fn height(&self) -> (r: u32)
        ensures
            r == self.spec_height(),
    {
        self.height
    }

    /// Read one pixel, for compositing and for inspection.
    pub fn pixel_at(&self, x: u32, y: u32) -> (r: Rgba)
        requires
            self.wf(),
            x < self.spec_width(),
            y < self.spec_height(),
        ensures
            r == self.pixel(x as int, y as int),
    {
        proof {
            assert(self.rows()[y as int] == self.pixels@[y as int]@);
        }
        let row: &Vec<Rgba> = &self.pixels[y as usize];
        row[x as usize]
    }

    /// Stamp the brush centered at `point`: fill the square it covers,
    /// clipped to the surface, with the tool's fill; with no tool
    /// active the surface is left untouched. The brush may lie partly
    /// or wholly outside the surface; only the overlap is written.
    #[verifier::loop_isolation(false)]
    pub fn stamp_brush(&mut self, point: Point, tool: Tool)
        requires
            old(self).wf(),
        ensures
            final(self).wf(),
            final(self).spec_width() == old(self).spec_width(),
            final(self).spec_height() == old(self).spec_height(),
            final(self).rows() == spec_stamp(old(self).rows(), point.x as int, point.y as int, tool),
    {
        if matches!(tool, Tool::NoTool) {
            return;
        }
        let fill = tool.fill();
        let ghost s0 = self.rows();
        let cx = point.x as i64;
        let cy = point.y as i64;
        let w = self.width as i64;
        let h = self.height as i64;
        let x0: i64 = if cx - 8 < 0 { 0 } else if cx - 8 > w { w } else { cx - 8 };
        let x1: i64 = if cx + 8 < x0 { x0 } else if cx + 8 > w { w } else { cx + 8 };
        let y0: i64 = if cy - 8 < 0 { 0 } else if cy - 8 > h { h } else { cy - 8 };
        let y1: i64 = if cy + 8 < y0 { y0 } else if cy + 8 > h { h } else { cy + 8 };
        let mut yy: i64 = y0;
        while yy < y1
            invariant
                y0 <= yy <= y1,
                self.width as int == w as int,
                self.height as int == h as int,
                self.wf(),
                forall|y: int| 0 <= y < h && y0 <= y < yy
                    ==> #[trigger] self.rows()[y] == stamped_row(s0[y], cx as int, cy as int, y, fill),
                forall|y: int| 0 <= y < h && !(y0 <= y < yy) ==> #[trigger] self.rows()[y] == s0[y],
            decreases y1 - yy,
        {
            let yi = yy as usize;
            let ghost p_before = self.pixels@;
            let ghost rows_before = self.rows();
            proof {
                assert(self.rows()[yy as int] == self.pixels@[yy as int]@);
                assert(self.rows()[yy as int].len() == w);
                assert(self.rows()[yy as int] == s0[yy as int]);
            }
            let row: &mut Vec<Rgba> = &mut self.pixels[yi];
            fill_range(row, x0 as usize, x1 as usize, fill);
            proof {
                assert(self.pixels@[yy as int]@ =~= stamped_row(s0[yy as int], cx as int, cy as int, yy as int, fill));
                assert forall|y: int| 0 <= y < h && y != yy implies #[trigger] self.rows()[y] == rows_before[y] by {
                    assert(self.pixels@[y] == p_before[y]);
                    assert(self.rows()[y] == self.pixels@[y]@);
                    assert(rows_before[y] == p_before[y]@);
                }
                assert(self.rows()[yy as int] == self.pixels@[yy as int]@);
            }
            yy = yy + 1;
        }
        proof {
            assert forall|y: int| 0 <= y < h implies #[trigger] self.rows()[y] =~= stamped(s0, cx as int, cy as int, fill)[y] by {
                if !(y0 <= y < y1) {
                    assert(forall|x: int| 0 <= x < w ==> !in_stamp(cx as int, cy as int, x, y));
                }
            }
            assert(self.rows() =~~= stamped(s0, cx as int, cy as int, fill));
        }
    }
}

/// Overwrite columns `x0 .. x1` of one row with the fill.
fn fill_range(row: &mut Vec<Rgba>, x0: usize, x1: usize, fill: Rgba)
    requires
        x0 <= x1 <= old(row)@.len(),
    ensures
        final(row)@.len() == old(row)@.len(),
        forall|x: int|
            0 <= x < old(row)@.len()
                ==> #[trigger] final(row)@[x] == (if x0 <= x < x1 { fill } else { old(row)@[x] }),
{
    let mut x = x0;
    while x < x1
        invariant
            x0 <= x <= x1 <= row@.len(),
            row@.len() == old(row)@.len(),
            forall|j: int|
                0 <= j < row@.len()
                    ==> #[trigger] row@[j] == (if x0 <= j < x { fill } else { old(row)@[j] }),
        decreases x1 - x,
    {
        row[x] = fill;
        x = x + 1;
    }
}

} // verus!
