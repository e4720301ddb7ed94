//! The movable block: a square footprint on the ground plane that carries a
//! cube of the same edge length.

use vstd::prelude::*;
use crate::geometry::{contains_point, polygon_contains, Bounds, Coord, Point};
use crate::grid::{pointer, pointer_spec, Grid, HALF_SUBPIXELS, SUBPIXELS};

verus! {

/// A block of the scene.
///
/// `bounds` caches the footprint `[coord, coord + size]`; `wf` says that the
/// cache is current.
#[derive(Clone, Copy, Debug)]
pub struct Cube {
    /// 0 until the block joins a scene, then its stable identifier.
    pub id: usize,
    pub character: char,
    pub coord: Coord,
    pub size: u32,
    pub bounds: Bounds,
    pub is_active: bool,
}

/// The four corners of a footprint. "Top" is the side of smaller y.
#[derive(Clone, Copy, Debug, PartialEq, Eq, Structural)]
pub struct Corners {
    pub tl: Point,
    pub tr: Point,
    pub br: Point,
    pub bl: Point,
}

/// The overlap of two intervals `[a, a_end]` and `[b, b_end]` along one
/// axis, counted only from the entering side: the far edge of one has passed
/// the near edge of the other, whose near edge it has not passed.
pub open spec fn axis_overlap(a: int, a_end: int, b: int, b_end: int) -> int {
    if a_end > b && a <= b {
        a_end - b
    } else if b_end > a && b <= a {
        b_end - a
    } else {
        0
    }
}

/// Whether a position can be shifted by `(dx, dy)` without leaving the range
/// of a `Coord`.
pub open spec fn shift_fits(at: Coord, dx: int, dy: int) -> bool {
    &&& i32::MIN <= at.x + dx <= i32::MAX
    &&& i32::MIN <= at.y + dy <= i32::MAX
}

impl Cube {
    /// The cached footprint is the one that `coord` and `size` give.
    pub open spec fn wf(self) -> bool {
        self.bounds == Bounds::square_spec(self.coord, self.size)
    }

    /// The block with every field but the position kept, moved by `(dx, dy)`.
    /// Meaningful where `shift_fits` holds.
    pub open spec fn translated_spec(self, dx: int, dy: int) -> Cube {
        let at = Coord { x: (self.coord.x + dx) as i32, y: (self.coord.y + dy) as i32 };
        Cube { coord: at, bounds: Bounds::square_spec(at, self.size), ..self }
    }

    /// The overlap with `other` along x and along y.
    pub open spec fn overlap_spec(self, other: Cube) -> (int, int) {
        (
            axis_overlap(
                self.coord.x as int,
                self.coord.x + self.size,
                other.coord.x as int,
                other.coord.x + other.size,
            ),
            axis_overlap(
                self.coord.y as int,
                self.coord.y + self.size,
                other.coord.y as int,
                other.coord.y + other.size,
            ),
        )
    }

    /// The corners of the cached footprint.
    pub open spec fn corners_spec(self) -> Corners {
        Corners {
            tl: Point { x: self.bounds.min.x, y: self.bounds.min.y },
            tr: Point { x: self.bounds.max.x, y: self.bounds.min.y },
            br: Point { x: self.bounds.max.x, y: self.bounds.max.y },
            bl: Point { x: self.bounds.min.x, y: self.bounds.max.y },
        }
    }

    /// Whether the cached footprint is current.
    pub fn is_wf(&self) -> (ok: bool)
        ensures
            ok == self.wf(),
    {
        let fresh = Bounds::square(self.coord, self.size);
        self.bounds.min.x == fresh.min.x && self.bounds.min.y == fresh.min.y && self.bounds.max.x
            == fresh.max.x && self.bounds.max.y == fresh.max.y
    }

    /// A block outside any scene: identifier 0, inactive.
    pub fn new(character: char, x: i32, y: i32, size: u32) -> (cube: Cube)
        ensures
            cube.wf(),
            cube.id == 0,
            cube.character == character,
            cube.coord == (Coord { x, y }),
            cube.size == size,
            !cube.is_active,
    {
        let coord = Coord { x, y };
        Cube { id: 0, character, coord, size, is_active: false, bounds: Bounds::square(coord, size) }
    }

    /// The four corners of the footprint.
    pub fn corners(&self) -> (c: Corners)
        ensures
            c == self.corners_spec(),
    {
        let min = self.bounds.min;
        let max = self.bounds.max;
        Corners {
            tl: Point { x: min.x, y: min.y },
            tr: Point { x: max.x, y: min.y },
            br: Point { x: max.x, y: max.y },
            bl: Point { x: min.x, y: max.y },
        }
    }

    /// Whether the block can be moved by `(x_delta, y_delta)`.
    pub fn can_translate(&self, x_delta: i64, y_delta: i64) -> (fits: bool)
        ensures
            fits == shift_fits(self.coord, x_delta as int, y_delta as int),
    {
        let min: i64 = i32::MIN as i64;
        let max: i64 = i32::MAX as i64;
        let x: i64 = self.coord.x as i64;
        let y: i64 = self.coord.y as i64;
        min - x <= x_delta && x_delta <= max - x && min - y <= y_delta && y_delta <= max - y
    }

    /// Moves the block and renews the cached footprint in one step.
    pub fn translate(&mut self, x_delta: i64, y_delta: i64)
        requires
            shift_fits(old(self).coord, x_delta as int, y_delta as int),
        ensures
            *final(self) == old(self).translated_spec(x_delta as int, y_delta as int),
            final(self).wf(),
            final(self).coord.x == old(self).coord.x + x_delta,
            final(self).coord.y == old(self).coord.y + y_delta,
    {
        let coord = Coord {
            x: (self.coord.x as i64 + x_delta) as i32,
            y: (self.coord.y as i64 + y_delta) as i32,
        };
        self.coord = coord;
        self.bounds = Bounds::square(coord, self.size);
    }

    /// A copy of the block, moved.
    pub fn translated(self, x_delta: i64, y_delta: i64) -> (moved: Cube)
        requires
            shift_fits(self.coord, x_delta as int, y_delta as int),
        ensures
            moved == self.translated_spec(x_delta as int, y_delta as int),
            moved.wf(),
    {
        let mut moved = self;
        moved.translate(x_delta, y_delta);
        moved
    }

    /// The overlap with `other` along each axis, counted from the entering
    /// side only.
    pub fn overlap(&self, other: &Cube) -> (o: (i64, i64))
        requires
            self.wf(),
            other.wf(),
        ensures
            (o.0 as int, o.1 as int) == self.overlap_spec(*other),
    {
        let ax: i64 = self.coord.x as i64;
        let ay: i64 = self.coord.y as i64;
        let bx: i64 = other.coord.x as i64;
        let by: i64 = other.coord.y as i64;
        let x_overlap: i64 = if self.bounds.max.x > bx && ax <= bx {
            self.bounds.max.x - bx
        } else if other.bounds.max.x > ax && bx <= ax {
            other.bounds.max.x - ax
        } else {
            0
        };
        let y_overlap: i64 = if self.bounds.max.y > by && ay <= by {
            self.bounds.max.y - by
        } else if other.bounds.max.y > ay && by <= ay {
            other.bounds.max.y - ay
        } else {
            0
        };
        (x_overlap, y_overlap)
    }
}

impl Cube {
    /// The outline of the block on the screen: the hexagon around the
    /// projection of its position, one block size up and down and to either
    /// side, with the side corners half a size above and below the middle.
    pub open spec fn outline_spec(self, grid: Grid) -> Seq<Point> {
        let c = grid.project_spec(self.coord.x as int, self.coord.y as int, 0);
        let full = SUBPIXELS * self.size;
        let half = HALF_SUBPIXELS * self.size;
        seq![
            Point { x: c.0 as i64, y: (c.1 - full) as i64 },
            Point { x: (c.0 + full) as i64, y: (c.1 - half) as i64 },
            Point { x: (c.0 + full) as i64, y: (c.1 + half) as i64 },
            Point { x: c.0 as i64, y: (c.1 + full) as i64 },
            Point { x: (c.0 - full) as i64, y: (c.1 + half) as i64 },
            Point { x: (c.0 - full) as i64, y: (c.1 - half) as i64 },
        ]
    }

    /// The outline of the block on the screen.
    pub fn outline(&self, grid: &Grid) -> (ring: Vec<Point>)
        requires
            grid.wf(),
        ensures
            ring@ == self.outline_spec(*grid),
            forall|i: int| 0 <= i < ring@.len() ==> (#[trigger] ring@[i]).within_polygon_limit(),
    {
        let c = grid.project(self.coord.x, self.coord.y, 0);
        let full: i64 = 8 * (self.size as i64);
        let half: i64 = 4 * (self.size as i64);
        let top = Point { x: c.x, y: c.y - full };
        let right_upper = Point { x: c.x + full, y: c.y - half };
        let right_lower = Point { x: c.x + full, y: c.y + half };
        let bottom = Point { x: c.x, y: c.y + full };
        let left_lower = Point { x: c.x - full, y: c.y + half };
        let left_upper = Point { x: c.x - full, y: c.y - half };
        let ring = vec![top, right_upper, right_lower, bottom, left_lower, left_upper];
        assert(ring@ =~= self.outline_spec(*grid));
        ring
    }

    /// Whether the pointer at `posn` is inside the block's outline.
    pub fn hit_test(&self, posn: &Coord, grid: &Grid) -> (hit: bool)
        requires
            grid.wf(),
        ensures
            hit == polygon_contains(self.outline_spec(*grid), pointer_spec(*posn, *grid)),
    {
        let edges = self.outline(grid);
        contains_point(&edges, pointer(posn, grid))
    }
}

/// Two blocks disagree along an axis where they start at the same
/// coordinate with different non-zero extents.
pub open spec fn axis_conflict(a: int, a_end: int, b: int, b_end: int) -> bool {
    a == b && a_end > a && b_end > b && a_end != b_end
}

/// Along one axis the overlap does not depend on the order of the two
/// intervals, except where both start at the same coordinate with different
/// non-zero extents.
pub proof fn lemma_axis_overlap_symmetric(a: int, a_end: int, b: int, b_end: int)
    requires
        a <= a_end,
        b <= b_end,
    ensures
        axis_overlap(a, a_end, b, b_end) == axis_overlap(b, b_end, a, a_end) <==> !axis_conflict(
            a,
            a_end,
            b,
            b_end,
        ),
{
}

/// The overlap of two blocks is the same in either order, on every pair of
/// blocks but those that start at the same coordinate of an axis with
/// different non-zero sizes.
pub proof fn lemma_overlap_symmetric(a: Cube, b: Cube)
    ensures
        a.overlap_spec(b) == b.overlap_spec(a) <==> !(a.size > 0 && b.size > 0 && a.size != b.size
            && (a.coord.x == b.coord.x || a.coord.y == b.coord.y)),
        a.size == b.size ==> a.overlap_spec(b) == b.overlap_spec(a),
{
    lemma_axis_overlap_symmetric(
        a.coord.x as int,
        a.coord.x + a.size,
        b.coord.x as int,
        b.coord.x + b.size,
    );
    lemma_axis_overlap_symmetric(
        a.coord.y as int,
        a.coord.y + a.size,
        b.coord.y as int,
        b.coord.y + b.size,
    );
}

} // verus!
