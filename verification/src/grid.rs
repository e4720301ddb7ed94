//! The projector between the logical plane of the blocks and the screen.
//!
//! Screen coordinates are integers in eighths of a pixel, so that the halves
//! of the isometric projection and the quarters of the light's position stay
//! exact.

use vstd::prelude::*;
use crate::geometry::{Coord, Point};

verus! {

/// Screen units per pixel.
pub const SUBPIXELS: i64 = 8;

/// Screen units per half pixel.
pub const HALF_SUBPIXELS: i64 = 4;

/// Light units per logical unit.
pub const LIGHT_SUBUNITS: i64 = 4;

/// The height in pixels that the scene is centred for.
pub const SCENE_HEIGHT: i64 = 600;

/// The largest viewport extent in device pixels: the largest `u32` times the
/// largest `u8`.
pub const EXTENT_LIMIT: i64 = 0xfe_ffff_ff01;

/// The largest magnitude of a logical coordinate that is projected: more
/// than any position and size add up to.
pub const REACH_LIMIT: i64 = 0x4_0000_0000;

/// No projection lies further than this from the screen's origin, in screen
/// units.
pub const SCREEN_LIMIT: i64 = 0x1000_0000_0000;

/// No ground position under a pointer lies further than this from the
/// logical origin.
pub const ISO_LIMIT: i64 = 0x2_0000_0000_0000;

/// The point light, in quarters of a logical unit.
#[derive(Clone, Copy, Debug, PartialEq, Eq, Structural)]
pub struct LightSource {
    pub x: i32,
    pub y: i32,
    pub z: i32,
}

/// The viewport, in device pixels, with the light that shines on the scene.
#[derive(Clone, Copy, Debug, PartialEq, Eq, Structural)]
pub struct Grid {
    pub width: i64,
    pub height: i64,
    pub device_pixel_ratio: u8,
    pub light_source: LightSource,
}

impl Default for LightSource {
    /// The light at `(-300.25, 300.25, 600)` logical units.
    fn default() -> (light: LightSource)
        ensures
            light.x == -1201,
            light.y == 1201,
            light.z == 2400,
    {
        LightSource { x: -1201, y: 1201, z: 2400 }
    }
}

impl Default for Grid {
    /// A viewport of no extent under the default light.
    fn default() -> (grid: Grid)
        ensures
            grid.wf(),
            grid.width == 0,
            grid.height == 0,
            grid.device_pixel_ratio == 0,
            grid.light_source.x == -1201,
            grid.light_source.y == 1201,
            grid.light_source.z == 2400,
    {
        Grid { width: 0, height: 0, device_pixel_ratio: 0, light_source: LightSource::default() }
    }
}

/// The quotient of `n` by 16, rounded down.
pub fn floor_sixteenth(n: i64) -> (q: i64)
    ensures
        q == n / 16,
{
    if n >= 0 {
        n / 16
    } else if n < -0x7fff_ffff_ffff_fff0 {
        // `15 - n` would not fit; the quotient is the least there is.
        -0x0800_0000_0000_0000
    } else {
        -((15 - n) / 16)
    }
}

impl Grid {
    /// The extents are those of some viewport.
    pub open spec fn wf(self) -> bool {
        &&& 0 <= self.width <= EXTENT_LIMIT
        &&& 0 <= self.height <= EXTENT_LIMIT
    }

    /// The screen offset of the logical origin: half the width to the right,
    /// and half of what the height exceeds `SCENE_HEIGHT` by downwards.
    pub open spec fn offset_spec(self) -> (int, int) {
        (HALF_SUBPIXELS * self.width, HALF_SUBPIXELS * (self.height - SCENE_HEIGHT))
    }

    /// The screen position of a point given in quarters of a logical unit:
    /// `x - y` to the right and `(x + y) / 2 - z` downwards, from the offset.
    pub open spec fn project_quarters_spec(self, x: int, y: int, z: int) -> (int, int) {
        (2 * (x - y) + self.offset_spec().0, (x + y) - 2 * z + self.offset_spec().1)
    }

    /// The screen position of the logical point `(x, y, z)`.
    pub open spec fn project_spec(self, x: int, y: int, z: int) -> (int, int) {
        (
            SUBPIXELS * (x - y) + self.offset_spec().0,
            HALF_SUBPIXELS * (x + y) - SUBPIXELS * z + self.offset_spec().1,
        )
    }

    /// The logical ground position, rounded down, under the screen position
    /// `(x, y)`: with the offset taken off and the rest scaled by the pixel
    /// ratio, half of x plus y, and y minus half of x.
    pub open spec fn cartesian_to_iso_spec(self, x: int, y: int) -> (int, int) {
        let across = self.device_pixel_ratio * (x - self.offset_spec().0);
        let down = self.device_pixel_ratio * (y - self.offset_spec().1);
        ((across + 2 * down) / (2 * SUBPIXELS), (2 * down - across) / (2 * SUBPIXELS))
    }

    /// Whether the extents are those of some viewport.
    pub fn is_wf(&self) -> (ok: bool)
        ensures
            ok == self.wf(),
    {
        0 <= self.width && self.width <= EXTENT_LIMIT && 0 <= self.height && self.height
            <= EXTENT_LIMIT
    }

    fn offset(&self) -> (o: (i64, i64))
        requires
            self.wf(),
        ensures
            (o.0 as int, o.1 as int) == self.offset_spec(),
    {
        (4 * self.width, 4 * (self.height - SCENE_HEIGHT))
    }

    /// Projects a logical point onto the screen.
    pub fn project(&self, x: i32, y: i32, z: i32) -> (p: Point)
        requires
            self.wf(),
        ensures
            (p.x as int, p.y as int) == self.project_spec(x as int, y as int, z as int),
    {
        self.project_wide(x as i64, y as i64, z as i64)
    }

    /// Projects a logical point that a position and a size add up to.
    pub fn project_wide(&self, x: i64, y: i64, z: i64) -> (p: Point)
        requires
            self.wf(),
            -REACH_LIMIT <= x <= REACH_LIMIT,
            -REACH_LIMIT <= y <= REACH_LIMIT,
            -REACH_LIMIT <= z <= REACH_LIMIT,
        ensures
            (p.x as int, p.y as int) == self.project_spec(x as int, y as int, z as int),
            -SCREEN_LIMIT <= p.x <= SCREEN_LIMIT,
            -SCREEN_LIMIT <= p.y <= SCREEN_LIMIT,
    {
        let (left_offset, top_offset) = self.offset();
        Point { x: 8 * (x - y) + left_offset, y: 4 * (x + y) - 8 * z + top_offset }
    }

    /// Projects a point given in quarters of a logical unit, as the light is.
    pub fn project_quarters(&self, x: i64, y: i64, z: i64) -> (p: Point)
        requires
            self.wf(),
            -LIGHT_SUBUNITS * REACH_LIMIT <= x <= LIGHT_SUBUNITS * REACH_LIMIT,
            -LIGHT_SUBUNITS * REACH_LIMIT <= y <= LIGHT_SUBUNITS * REACH_LIMIT,
            -LIGHT_SUBUNITS * REACH_LIMIT <= z <= LIGHT_SUBUNITS * REACH_LIMIT,
        ensures
            (p.x as int, p.y as int) == self.project_quarters_spec(x as int, y as int, z as int),
            -SCREEN_LIMIT <= p.x <= SCREEN_LIMIT,
            -SCREEN_LIMIT <= p.y <= SCREEN_LIMIT,
    {
        let (left_offset, top_offset) = self.offset();
        Point { x: 2 * (x - y) + left_offset, y: (x + y) - 2 * z + top_offset }
    }

    /// The logical ground position under a screen position, rounded down.
    pub fn cartesian_to_iso(&self, x: i32, y: i32) -> (iso: (i64, i64))
        requires
            self.wf(),
        ensures
            (iso.0 as int, iso.1 as int) == self.cartesian_to_iso_spec(x as int, y as int),
            -ISO_LIMIT <= iso.0 <= ISO_LIMIT,
            -ISO_LIMIT <= iso.1 <= ISO_LIMIT,
    {
        let (left_offset, top_offset) = self.offset();
        let ratio: i64 = self.device_pixel_ratio as i64;
        let from_left: i64 = x as i64 - left_offset;
        let from_top: i64 = y as i64 - top_offset;
        assert(-0x8_0000_0000_0000 <= ratio * from_left <= 0x8_0000_0000_0000) by (nonlinear_arith)
            requires
                0 <= ratio <= 255,
                -0x800_0000_0000 <= from_left <= 0x800_0000_0000,
        ;
        assert(-0x8_0000_0000_0000 <= ratio * from_top <= 0x8_0000_0000_0000) by (nonlinear_arith)
            requires
                0 <= ratio <= 255,
                -0x800_0000_0000 <= from_top <= 0x800_0000_0000,
        ;
        let across: i64 = ratio * from_left;
        let down: i64 = ratio * from_top;
        (floor_sixteenth(across + 2 * down), floor_sixteenth(2 * down - across))
    }

    /// Takes the viewport's extent in CSS pixels and its pixel ratio, and
    /// says whether the extent in device pixels has changed.
    pub fn update_dimensions(&mut self, width: u32, height: u32, device_pixel_ratio: u8) -> (changed:
        bool)
        ensures
            final(self).wf(),
            final(self).width == width * device_pixel_ratio,
            final(self).height == height * device_pixel_ratio,
            final(self).device_pixel_ratio == device_pixel_ratio,
            final(self).light_source == old(self).light_source,
            changed <==> old(self).width != width * device_pixel_ratio || old(self).height != height
                * device_pixel_ratio,
    {
        let ratio: i64 = device_pixel_ratio as i64;
        assert(0 <= (width as i64) * ratio <= EXTENT_LIMIT) by (nonlinear_arith)
            requires
                0 <= width <= 0xffff_ffff,
                0 <= ratio <= 255,
        ;
        assert(0 <= (height as i64) * ratio <= EXTENT_LIMIT) by (nonlinear_arith)
            requires
                0 <= height <= 0xffff_ffff,
                0 <= ratio <= 255,
        ;
        let width: i64 = (width as i64) * ratio;
        let height: i64 = (height as i64) * ratio;
        let changed = self.width != width || self.height != height;
        self.width = width;
        self.height = height;
        self.device_pixel_ratio = device_pixel_ratio;
        changed
    }
}

/// The screen position of a pointer at `posn`, by the pixel ratio of `grid`.
pub open spec fn pointer_spec(posn: Coord, grid: Grid) -> Point {
    Point {
        x: (posn.x * grid.device_pixel_ratio) as i64,
        y: (posn.y * grid.device_pixel_ratio) as i64,
    }
}

/// The screen position of a pointer at `posn`, by the pixel ratio of `grid`.
pub fn pointer(posn: &Coord, grid: &Grid) -> (p: Point)
    ensures
        p == pointer_spec(*posn, *grid),
        -0x100_0000_0000 <= p.x <= 0x100_0000_0000,
        -0x100_0000_0000 <= p.y <= 0x100_0000_0000,
{
    let ratio: i64 = grid.device_pixel_ratio as i64;
    let x: i64 = posn.x as i64;
    let y: i64 = posn.y as i64;
    assert(-0x100_0000_0000 <= x * ratio <= 0x100_0000_0000) by (nonlinear_arith)
        requires
            -0x8000_0000 <= x <= 0x7fff_ffff,
            0 <= ratio <= 255,
    ;
    assert(-0x100_0000_0000 <= y * ratio <= 0x100_0000_0000) by (nonlinear_arith)
        requires
            -0x8000_0000 <= y <= 0x7fff_ffff,
            0 <= ratio <= 255,
    ;
    Point { x: x * ratio, y: y * ratio }
}

/// At pixel ratio 1, the logical position under the projection of a ground
/// point is that point.
pub proof fn lemma_project_round_trip(grid: Grid, x: int, y: int)
    requires
        grid.device_pixel_ratio == 1,
    ensures
        ({
            let p = grid.project_spec(x, y, 0);
            grid.cartesian_to_iso_spec(p.0, p.1) == (x, y)
        }),
{
    let p = grid.project_spec(x, y, 0);
    let across = p.0 - grid.offset_spec().0;
    let down = p.1 - grid.offset_spec().1;
    assert(across + 2 * down == 16 * x);
    assert(2 * down - across == 16 * y);
    assert((16 * x) / 16 == x && (16 * y) / 16 == y);
}

/// At pixel ratio `r`, the logical position under the projection of a ground
/// point is that point scaled by `r`.
pub proof fn lemma_project_round_trip_scaled(grid: Grid, x: int, y: int)
    ensures
        ({
            let p = grid.project_spec(x, y, 0);
            grid.cartesian_to_iso_spec(p.0, p.1) == (
                grid.device_pixel_ratio * x,
                grid.device_pixel_ratio * y,
            )
        }),
{
    let r = grid.device_pixel_ratio as int;
    let p = grid.project_spec(x, y, 0);
    let across = r * (p.0 - grid.offset_spec().0);
    let down = r * (p.1 - grid.offset_spec().1);
    assert(across == r * (8 * (x - y)));
    assert(down == r * (4 * (x + y)));
    assert(across + 2 * down == 16 * (r * x)) by (nonlinear_arith)
        requires
            across == r * (8 * (x - y)),
            down == r * (4 * (x + y)),
    ;
    assert(2 * down - across == 16 * (r * y)) by (nonlinear_arith)
        requires
            across == r * (8 * (x - y)),
            down == r * (4 * (x + y)),
    ;
    assert((16 * (r * x)) / 16 == r * x && (16 * (r * y)) / 16 == r * y);
}

} // verus!
