//! The hotspot: a label that lies on the ground and opens a target when it
//! is clicked.

use vstd::prelude::*;
use crate::geometry::{contains_point, polygon_contains, Coord, Point};
use crate::grid::{pointer, pointer_spec, Grid};

verus! {

/// How far the hit area reaches to either side of the label's baseline, in
/// logical units.
pub const LINK_HALF_HEIGHT: i64 = 20;

/// How far the hit area reaches before the start of the label, in logical
/// units.
pub const LINK_LEAD: i64 = 10;

/// A label at a fixed place. Only `is_active` changes.
#[derive(Clone, Copy, Debug)]
pub struct Link {
    pub coord: Coord,
    pub text: &'static str,
    pub url: &'static str,
    /// The width of the drawn text, in pixels.
    pub width: u32,
    pub is_active: bool,
}

impl Link {
    /// The hit area on the screen: the projection of the rectangle that
    /// reaches `LINK_HALF_HEIGHT` to either side of the label's position
    /// along x, and along y from `LINK_LEAD` before the position to three
    /// quarters of the text's width beyond it.
    pub open spec fn outline_spec(self, grid: Grid) -> Seq<Point> {
        let near = 4 * (self.coord.x - LINK_HALF_HEIGHT);
        let far = 4 * (self.coord.x + LINK_HALF_HEIGHT);
        let start = 4 * (self.coord.y + LINK_LEAD);
        let end = 4 * self.coord.y - 3 * self.width;
        let a = grid.project_quarters_spec(near, start, 0);
        let b = grid.project_quarters_spec(near, end, 0);
        let c = grid.project_quarters_spec(far, end, 0);
        let d = grid.project_quarters_spec(far, start, 0);
        seq![
            Point { x: a.0 as i64, y: a.1 as i64 },
            Point { x: b.0 as i64, y: b.1 as i64 },
            Point { x: c.0 as i64, y: c.1 as i64 },
            Point { x: d.0 as i64, y: d.1 as i64 },
        ]
    }

    /// A label at `(x, y)` whose text is `width` pixels wide when drawn.
    pub fn new(x: i32, y: i32, text: &'static str, url: &'static str, width: u32) -> (link: Link)
        ensures
            link.coord == (Coord { x, y }),
            link.text == text,
            link.url == url,
            link.width == width,
            !link.is_active,
    {
        Link { coord: Coord { x, y }, text, url, width, is_active: false }
    }

    /// The hit area on the screen.
    pub fn outline(&self, grid: &Grid) -> (ring: Vec<Point>)
        requires
            grid.wf(),
        ensures
            ring@ == self.outline_spec(*grid),
            forall|i: int| 0 <= i < ring@.len() ==> (#[trigger] ring@[i]).within_polygon_limit(),
    {
        let near: i64 = 4 * (self.coord.x as i64 - LINK_HALF_HEIGHT);
        let far: i64 = 4 * (self.coord.x as i64 + LINK_HALF_HEIGHT);
        let start: i64 = 4 * (self.coord.y as i64 + LINK_LEAD);
        let end: i64 = 4 * (self.coord.y as i64) - 3 * (self.width as i64);
        let a = grid.project_quarters(near, start, 0);
        let b = grid.project_quarters(near, end, 0);
        let c = grid.project_quarters(far, end, 0);
        let d = grid.project_quarters(far, start, 0);
        let ring = vec![a, b, c, d];
        assert(ring@ =~= self.outline_spec(*grid));
        ring
    }

    /// Whether the pointer at `posn` is inside the hit area.
    pub fn hit_test(&self, posn: &Coord, grid: &Grid) -> (hit: bool)
        requires
            grid.wf(),
        ensures
            hit == polygon_contains(self.outline_spec(*grid), pointer_spec(*posn, *grid)),
    {
        let edges = self.outline(grid);
        contains_point(&edges, pointer(posn, grid))
    }
}

} // verus!
