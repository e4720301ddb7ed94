//! The shadow that a block casts on the ground under the point light.
//!
//! Each corner of the block's top face throws one corner of the shadow: the
//! point where the ray from the light's foot through the corner's foot
//! crosses the ray from the light itself through the corner. The library
//! builds the rays and, from the four crossings, the outline of the shadow;
//! finding where two rays cross is left to the caller.

use vstd::prelude::*;
use crate::cube::{Corners, Cube};
use crate::geometry::Point;
use crate::grid::{Grid, LightSource, LIGHT_SUBUNITS, SCREEN_LIMIT};

verus! {

/// How many times its own length a ray is drawn out beyond its second point.
pub const RAY_STRETCH: i64 = 100;

/// A segment on the screen.
#[derive(Clone, Copy, Debug, PartialEq, Eq, Structural)]
pub struct Line {
    pub start: Point,
    pub end: Point,
}

/// The eight rays of one block: for each corner of the footprint, the ray
/// along the ground and the ray through the corner of the top face.
#[derive(Clone, Copy, Debug, PartialEq, Eq, Structural)]
pub struct ShadowRays {
    pub ground_tl: Line,
    pub ground_tr: Line,
    pub ground_br: Line,
    pub ground_bl: Line,
    pub apex_tl: Line,
    pub apex_tr: Line,
    pub apex_br: Line,
    pub apex_bl: Line,
}

/// For each corner of the footprint, the point where its two rays cross, or
/// nothing where they do not cross in exactly one point.
#[derive(Clone, Copy, Debug)]
pub struct ShadowHits {
    pub tl: Option<Point>,
    pub tr: Option<Point>,
    pub bl: Option<Point>,
    pub br: Option<Point>,
}

/// The ray from `from` through `through`, drawn out to `RAY_STRETCH` times
/// the distance between them. A ray that runs straight up or down the
/// screen has no slope to be drawn out by.
pub open spec fn ray_spec(from: Point, through: Point) -> Option<Line> {
    if through.x == from.x {
        None
    } else {
        Some(
            Line {
                start: from,
                end: Point {
                    x: (from.x + RAY_STRETCH * (through.x - from.x)) as i64,
                    y: (from.y + RAY_STRETCH * (through.y - from.y)) as i64,
                },
            },
        )
    }
}

/// The ray from `from` through `through`.
pub fn extrapolate(from: Point, through: Point) -> (ray: Option<Line>)
    requires
        -SCREEN_LIMIT <= from.x <= SCREEN_LIMIT,
        -SCREEN_LIMIT <= from.y <= SCREEN_LIMIT,
        -SCREEN_LIMIT <= through.x <= SCREEN_LIMIT,
        -SCREEN_LIMIT <= through.y <= SCREEN_LIMIT,
    ensures
        ray == ray_spec(from, through),
{
    let x_delta: i64 = through.x - from.x;
    let y_delta: i64 = through.y - from.y;
    if x_delta == 0 {
        None
    } else {
        Some(Line { start: from, end: Point { x: from.x + 100 * x_delta, y: from.y + 100 * y_delta } })
    }
}

/// The screen position of `p`, which lies `z` above the ground.
pub open spec fn raised_spec(grid: Grid, p: Point, z: int) -> Point {
    let s = grid.project_spec(p.x as int, p.y as int, z);
    Point { x: s.0 as i64, y: s.1 as i64 }
}

/// The screen positions of four corners that lie `z` above the ground.
pub open spec fn raised_corners_spec(grid: Grid, c: Corners, z: int) -> Corners {
    Corners {
        tl: raised_spec(grid, c.tl, z),
        tr: raised_spec(grid, c.tr, z),
        br: raised_spec(grid, c.br, z),
        bl: raised_spec(grid, c.bl, z),
    }
}

/// The screen position of the light, or of its foot on the ground.
pub open spec fn light_spec(grid: Grid, on_ground: bool) -> Point {
    let l = grid.light_source;
    let s = grid.project_quarters_spec(
        l.x as int,
        l.y as int,
        if on_ground {
            0
        } else {
            l.z as int
        },
    );
    Point { x: s.0 as i64, y: s.1 as i64 }
}

/// Whether the light stands within the half-open interval `[at, at + size)`
/// of one axis. `light` is in quarters of a logical unit.
pub open spec fn light_within(at: int, size: int, light: int) -> bool {
    LIGHT_SUBUNITS * at <= light < LIGHT_SUBUNITS * (at + size)
}

/// Four times the distance by which the centre of `[at, at + size]` lies
/// beyond the light on one axis.
pub open spec fn center_beyond(at: int, size: int, light: int) -> int {
    LIGHT_SUBUNITS * at + 2 * size - light
}

/// The outline of the shadow, from the screen positions `g` of the
/// footprint's corners and the four crossings `i`.
///
/// Where the light stands over the block, the shadow is the four crossings.
/// Where it stands beside the block along one axis, the two corners of the
/// side turned away from the light join them. Where it stands off a corner,
/// the two corners next to the far corner do, and the crossing of the near
/// corner is left out. A block of no extent whose centre is level with the
/// light on an axis casts no shadow.
pub open spec fn outline_spec(
    cube: Cube,
    light: LightSource,
    g: Corners,
    i: Corners,
) -> Option<Seq<Point>> {
    let in_x = light_within(cube.coord.x as int, cube.size as int, light.x as int);
    let in_y = light_within(cube.coord.y as int, cube.size as int, light.y as int);
    let ahead_x = center_beyond(cube.coord.x as int, cube.size as int, light.x as int);
    let ahead_y = center_beyond(cube.coord.y as int, cube.size as int, light.y as int);
    if in_x && in_y {
        Some(seq![i.tl, i.tr, i.br, i.bl])
    } else if in_x {
        if ahead_y > 0 {
            Some(seq![g.tr, i.tr, i.br, i.bl, i.tl, g.tl])
        } else {
            Some(seq![g.br, i.br, i.tr, i.tl, i.bl, g.bl])
        }
    } else if in_y {
        if ahead_x > 0 {
            Some(seq![g.tl, i.tl, i.tr, i.br, i.bl, g.bl])
        } else {
            Some(seq![g.tr, i.tr, i.tl, i.bl, i.br, g.br])
        }
    } else if ahead_x > 0 && ahead_y > 0 {
        Some(seq![g.tr, i.tr, i.br, i.bl, g.bl])
    } else if ahead_x > 0 && ahead_y < 0 {
        Some(seq![g.br, i.br, i.tr, i.tl, g.tl])
    } else if ahead_x < 0 && ahead_y < 0 {
        Some(seq![g.tr, i.tr, i.tl, i.bl, g.bl])
    } else if ahead_x < 0 && ahead_y > 0 {
        Some(seq![g.br, i.br, i.bl, i.tl, g.tl])
    } else {
        None
    }
}

impl ShadowHits {
    /// The four crossings, where each pair of rays has one.
    pub open spec fn all(self) -> Option<Corners> {
        match (self.tl, self.tr, self.bl, self.br) {
            (Some(tl), Some(tr), Some(bl), Some(br)) => Some(Corners { tl, tr, br, bl }),
            _ => None,
        }
    }
}

impl Cube {
    /// The eight rays of the block, where none runs straight up or down the
    /// screen.
    pub open spec fn shadow_rays_spec(self, grid: Grid) -> Option<ShadowRays> {
        let c = self.corners_spec();
        let g = raised_corners_spec(grid, c, 0);
        let a = raised_corners_spec(grid, c, self.size as int);
        let foot = light_spec(grid, true);
        let lamp = light_spec(grid, false);
        match (
            ray_spec(foot, g.tl),
            ray_spec(foot, g.tr),
            ray_spec(foot, g.br),
            ray_spec(foot, g.bl),
            ray_spec(lamp, a.tl),
            ray_spec(lamp, a.tr),
            ray_spec(lamp, a.br),
            ray_spec(lamp, a.bl),
        ) {
            (
                Some(ground_tl),
                Some(ground_tr),
                Some(ground_br),
                Some(ground_bl),
                Some(apex_tl),
                Some(apex_tr),
                Some(apex_br),
                Some(apex_bl),
            ) => Some(
                ShadowRays {
                    ground_tl,
                    ground_tr,
                    ground_br,
                    ground_bl,
                    apex_tl,
                    apex_tr,
                    apex_br,
                    apex_bl,
                },
            ),
            _ => None,
        }
    }

    /// The outline of the shadow for the crossings `hits`: none unless every
    /// corner has its crossing.
    pub open spec fn shadow_spec(self, grid: Grid, hits: ShadowHits) -> Option<Seq<Point>> {
        match hits.all() {
            Some(i) => outline_spec(
                self,
                grid.light_source,
                raised_corners_spec(grid, self.corners_spec(), 0),
                i,
            ),
            None => None,
        }
    }

    /// The screen positions of the footprint's corners, raised by `z`.
    pub fn raised_corners(&self, grid: &Grid, z: u32) -> (r: Corners)
        requires
            self.wf(),
            grid.wf(),
        ensures
            r == raised_corners_spec(*grid, self.corners_spec(), z as int),
            -SCREEN_LIMIT <= r.tl.x <= SCREEN_LIMIT && -SCREEN_LIMIT <= r.tl.y <= SCREEN_LIMIT,
            -SCREEN_LIMIT <= r.tr.x <= SCREEN_LIMIT && -SCREEN_LIMIT <= r.tr.y <= SCREEN_LIMIT,
            -SCREEN_LIMIT <= r.br.x <= SCREEN_LIMIT && -SCREEN_LIMIT <= r.br.y <= SCREEN_LIMIT,
            -SCREEN_LIMIT <= r.bl.x <= SCREEN_LIMIT && -SCREEN_LIMIT <= r.bl.y <= SCREEN_LIMIT,
    {
        let c = self.corners();
        let z: i64 = z as i64;
        Corners {
            tl: grid.project_wide(c.tl.x, c.tl.y, z),
            tr: grid.project_wide(c.tr.x, c.tr.y, z),
            br: grid.project_wide(c.br.x, c.br.y, z),
            bl: grid.project_wide(c.bl.x, c.bl.y, z),
        }
    }

    /// The eight rays whose crossings are the corners of the shadow.
    pub fn shadow_rays(&self, grid: &Grid) -> (rays: Option<ShadowRays>)
        requires
            self.wf(),
            grid.wf(),
        ensures
            rays == self.shadow_rays_spec(*grid),
    {
        let l = grid.light_source;
        let foot = grid.project_quarters(l.x as i64, l.y as i64, 0);
        let lamp = grid.project_quarters(l.x as i64, l.y as i64, l.z as i64);
        let g = self.raised_corners(grid, 0);
        let a = self.raised_corners(grid, self.size);
        match (
            extrapolate(foot, g.tl),
            extrapolate(foot, g.tr),
            extrapolate(foot, g.br),
            extrapolate(foot, g.bl),
            extrapolate(lamp, a.tl),
            extrapolate(lamp, a.tr),
            extrapolate(lamp, a.br),
            extrapolate(lamp, a.bl),
        ) {
            (
                Some(ground_tl),
                Some(ground_tr),
                Some(ground_br),
                Some(ground_bl),
                Some(apex_tl),
                Some(apex_tr),
                Some(apex_br),
                Some(apex_bl),
            ) => Some(
                ShadowRays {
                    ground_tl,
                    ground_tr,
                    ground_br,
                    ground_bl,
                    apex_tl,
                    apex_tr,
                    apex_br,
                    apex_bl,
                },
            ),
            _ => None,
        }
    }

    /// The outline of the shadow, from the crossings of the rays.
    pub fn shadow(&self, grid: &Grid, hits: &ShadowHits) -> (outline: Option<Vec<Point>>)
        requires
            self.wf(),
            grid.wf(),
        ensures
            match outline {
                Some(ring) => self.shadow_spec(*grid, *hits) == Some(ring@),
                None => self.shadow_spec(*grid, *hits) is None,
            },
    {
        match (hits.tl, hits.tr, hits.bl, hits.br) {
            (Some(ix_tl), Some(ix_tr), Some(ix_bl), Some(ix_br)) => {
                let g = self.raised_corners(grid, 0);
                let ls = grid.light_source;
                let x: i64 = 4 * (self.coord.x as i64);
                let y: i64 = 4 * (self.coord.y as i64);
                let size: i64 = self.size as i64;
                let in_x = x <= ls.x as i64 && (ls.x as i64) < x + 4 * size;
                let in_y = y <= ls.y as i64 && (ls.y as i64) < y + 4 * size;
                let ahead_x: i64 = x + 2 * size - ls.x as i64;
                let ahead_y: i64 = y + 2 * size - ls.y as i64;
                let ghost i = Corners { tl: ix_tl, tr: ix_tr, br: ix_br, bl: ix_bl };
                let ghost want = outline_spec(*self, ls, g, i);
                let ring = if in_x && in_y {
                    vec![ix_tl, ix_tr, ix_br, ix_bl]
                } else if in_x {
                    if ahead_y > 0 {
                        vec![g.tr, ix_tr, ix_br, ix_bl, ix_tl, g.tl]
                    } else {
                        vec![g.br, ix_br, ix_tr, ix_tl, ix_bl, g.bl]
                    }
                } else if in_y {
                    if ahead_x > 0 {
                        vec![g.tl, ix_tl, ix_tr, ix_br, ix_bl, g.bl]
                    } else {
                        vec![g.tr, ix_tr, ix_tl, ix_bl, ix_br, g.br]
                    }
                } else if ahead_x > 0 && ahead_y > 0 {
                    vec![g.tr, ix_tr, ix_br, ix_bl, g.bl]
                } else if ahead_x > 0 && ahead_y < 0 {
                    vec![g.br, ix_br, ix_tr, ix_tl, g.tl]
                } else if ahead_x < 0 && ahead_y < 0 {
                    vec![g.tr, ix_tr, ix_tl, ix_bl, g.bl]
                } else if ahead_x < 0 && ahead_y > 0 {
                    vec![g.br, ix_br, ix_bl, ix_tl, g.tl]
                } else {
                    return None;
                };
                assert(want == Some(ring@)) by {
                    assert(want is Some);
                    assert(want->0 =~= ring@);
                }
                Some(ring)
            },
            _ => None,
        }
    }
}

} // verus!
