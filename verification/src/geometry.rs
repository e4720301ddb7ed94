//! Plain integer geometry: positions, rectangles, and the two polygon
//! predicates that the scene takes from the `geo` crate.

use vstd::prelude::*;

verus! {

/// A position in logical units, or a pointer position in eighths of a
/// pixel.
#[derive(Clone, Copy, Debug, PartialEq, Eq, Structural)]
pub struct Coord {
    pub x: i32,
    pub y: i32,
}

/// A point computed from positions and sizes. It is wide enough that no
/// computation on `Coord`s and sizes leaves it.
#[derive(Clone, Copy, Debug, PartialEq, Eq, Structural)]
pub struct Point {
    pub x: i64,
    pub y: i64,
}

/// An axis-aligned rectangle, by its two extreme corners.
#[derive(Clone, Copy, Debug, PartialEq, Eq, Structural)]
pub struct Bounds {
    pub min: Point,
    pub max: Point,
}

/// The largest magnitude of a coordinate that the polygon predicates accept.
/// Below it, the products of coordinate differences that `geo` forms fit
/// into 128 bits.
pub const POLYGON_LIMIT: i64 = 0x2000_0000_0000_0000;

impl Point {
    /// Whether both coordinates are within `POLYGON_LIMIT` of zero.
    pub open spec fn within_polygon_limit(self) -> bool {
        &&& -POLYGON_LIMIT <= self.x <= POLYGON_LIMIT
        &&& -POLYGON_LIMIT <= self.y <= POLYGON_LIMIT
    }
}

impl Bounds {
    /// The rectangle that starts at `at` and extends `size` along both axes.
    pub open spec fn square_spec(at: Coord, size: u32) -> Bounds {
        Bounds {
            min: Point { x: at.x as i64, y: at.y as i64 },
            max: Point { x: (at.x + size) as i64, y: (at.y + size) as i64 },
        }
    }

    /// The rectangle that starts at `at` and extends `size` along both axes.
    pub fn square(at: Coord, size: u32) -> (b: Bounds)
        ensures
            b == Bounds::square_spec(at, size),
    {
        let x: i64 = at.x as i64;
        let y: i64 = at.y as i64;
        let s: i64 = size as i64;
        Bounds { min: Point { x, y }, max: Point { x: x + s, y: y + s } }
    }

    /// Twice the x coordinate of the centre.
    pub open spec fn center2_x(self) -> int {
        self.min.x + self.max.x
    }

    /// Twice the y coordinate of the centre.
    pub open spec fn center2_y(self) -> int {
        self.min.y + self.max.y
    }
}

/// Whether `geo` finds the point `p` in the interior of the polygon whose
/// outer ring runs through `ring` and closes on its first point.
pub uninterp spec fn polygon_contains(ring: Seq<Point>, p: Point) -> bool;

/// Whether `geo` finds that the polygon through `ring` and the rectangle
/// `rect` share a point.
pub uninterp spec fn polygon_intersects_rect(ring: Seq<Point>, rect: Bounds) -> bool;

/// Calls `geo`'s `Contains<Coord>` on a `Polygon` without holes, built from
/// `ring` by `Polygon::new`. The coordinates go to `geo` as `i128`. The
/// result is the value that `geo` computes for these points; nothing else is
/// claimed of it.
#[verifier::external_body]
pub(crate) fn contains_point(ring: &Vec<Point>, p: Point) -> (inside: bool)
    requires
        p.within_polygon_limit(),
        forall|i: int| 0 <= i < ring@.len() ==> (#[trigger] ring@[i]).within_polygon_limit(),
    ensures
        inside == polygon_contains(ring@, p),
{
    let outer: Vec<geo::Coord<i128>> = ring
        .iter()
        .map(|q| geo::Coord { x: i128::from(q.x), y: i128::from(q.y) })
        .collect();
    let polygon = geo::Polygon::new(geo::LineString::new(outer), Vec::new());
    geo::Contains::contains(&polygon, &geo::Coord { x: i128::from(p.x), y: i128::from(p.y) })
}

/// Calls `geo`'s `Intersects<Rect>` on a `Polygon` without holes, built from
/// `ring` by `Polygon::new`, and the `Rect` between the two corners of
/// `rect`. The coordinates go to `geo` as `i128`. The result is the value
/// that `geo` computes; nothing else is claimed of it.
#[verifier::external_body]
pub(crate) fn intersects_rect(ring: &Vec<Point>, rect: Bounds) -> (meets: bool)
    requires
        rect.min.within_polygon_limit(),
        rect.max.within_polygon_limit(),
        forall|i: int| 0 <= i < ring@.len() ==> (#[trigger] ring@[i]).within_polygon_limit(),
    ensures
        meets == polygon_intersects_rect(ring@, rect),
{
    let outer: Vec<geo::Coord<i128>> = ring
        .iter()
        .map(|q| geo::Coord { x: i128::from(q.x), y: i128::from(q.y) })
        .collect();
    let polygon = geo::Polygon::new(geo::LineString::new(outer), Vec::new());
    let lo = geo::Coord { x: i128::from(rect.min.x), y: i128::from(rect.min.y) };
    let hi = geo::Coord { x: i128::from(rect.max.x), y: i128::from(rect.max.y) };
    geo::Intersects::intersects(&polygon, &geo::Rect::new(lo, hi))
}

} // verus!
