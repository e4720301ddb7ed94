//! One displacement of a block, and the push that it gives to a block in its
//! way.

use vstd::prelude::*;
use crate::cube::{shift_fits, Corners, Cube};
use crate::direction::{sign, Direction};
use crate::geometry::{intersects_rect, polygon_intersects_rect, Point};

verus! {

/// A block before and after one displacement.
#[derive(Clone, Copy, Debug)]
pub struct Movement {
    pub start: Cube,
    pub end: Cube,
    pub direction: Direction,
    pub dx: i64,
    pub dy: i64,
}

/// The magnitude of an integer.
pub open spec fn magnitude(v: int) -> int {
    if v < 0 {
        -v
    } else {
        v
    }
}

/// The push that a displacement of class `d` gives, from the overlaps `ox`
/// and `oy` of the mover's end position with the subject and the distances
/// `cx` and `cy` between the centres of the mover's start position and the
/// subject.
///
/// A straight displacement pushes along its own axis. A diagonal one pushes
/// along the axis on which the centres lie further apart, and along both
/// where they lie equally far apart. The push has the signs of the
/// displacement.
pub open spec fn push_of(d: Direction, ox: int, oy: int, cx: int, cy: int) -> (int, int) {
    if d.is_diagonal() {
        if cx > cy {
            (d.sign_x() * ox, 0)
        } else if cx < cy {
            (0, d.sign_y() * oy)
        } else {
            (d.sign_x() * ox, d.sign_y() * oy)
        }
    } else {
        (d.sign_x() * ox, d.sign_y() * oy)
    }
}

impl Movement {
    /// Both snapshots are well formed and of one size, and the deltas and
    /// the direction are those between them.
    pub open spec fn wf(self) -> bool {
        &&& self.start.wf()
        &&& self.end.wf()
        &&& self.start.size == self.end.size
        &&& self.dx == self.end.coord.x - self.start.coord.x
        &&& self.dy == self.end.coord.y - self.start.coord.y
        &&& self.direction == Direction::of_signs(sign(self.dx as int), sign(self.dy as int))
    }

    /// The movement from `start` to `end`.
    pub open spec fn new_spec(start: Cube, end: Cube) -> Movement {
        let dx = end.coord.x - start.coord.x;
        let dy = end.coord.y - start.coord.y;
        Movement {
            start,
            end,
            direction: Direction::of_signs(sign(dx), sign(dy)),
            dx: dx as i64,
            dy: dy as i64,
        }
    }

    /// Twice the distance along x between the centre of the start position
    /// and the centre of `subject`.
    pub open spec fn center_gap_x(self, subject: Cube) -> int {
        magnitude(
            (2 * self.start.coord.x + self.start.size) - (2 * subject.coord.x + subject.size),
        )
    }

    /// Twice the distance along y between the centre of the start position
    /// and the centre of `subject`.
    pub open spec fn center_gap_y(self, subject: Cube) -> int {
        magnitude(
            (2 * self.start.coord.y + self.start.size) - (2 * subject.coord.y + subject.size),
        )
    }

    /// The push that this movement gives to `subject`: none unless the end
    /// position overlaps `subject` along both axes.
    pub open spec fn push_spec(self, subject: Cube) -> Option<(int, int)> {
        let o = self.end.overlap_spec(subject);
        if o.0 > 0 && o.1 > 0 {
            Some(
                push_of(
                    self.direction,
                    o.0,
                    o.1,
                    self.center_gap_x(subject),
                    self.center_gap_y(subject),
                ),
            )
        } else {
            None
        }
    }

    /// The movement of `subject` that this movement causes, if any.
    pub open spec fn impact_spec(self, subject: Cube) -> Option<Movement> {
        match self.push_spec(subject) {
            Some(p) => Some(Movement::new_spec(subject, subject.translated_spec(p.0, p.1))),
            None => None,
        }
    }

    /// The quadrilateral that the leading side of the block sweeps over, from
    /// two corners of the start position to the matching two of the end
    /// position. A movement that goes nowhere sweeps over nothing.
    pub open spec fn sweep_spec(self) -> Seq<Point> {
        let s = self.start.corners_spec();
        let e = self.end.corners_spec();
        match self.direction {
            Direction::UpLeft | Direction::DownRight => seq![s.tr, s.bl, e.bl, e.tr],
            Direction::UpRight | Direction::DownLeft => seq![s.tl, s.br, e.br, e.tl],
            Direction::Up => seq![s.tl, s.tr, e.br, e.bl],
            Direction::Down => seq![s.bl, s.br, e.tr, e.tl],
            Direction::Left => seq![s.tl, s.bl, e.br, e.tr],
            Direction::Right => seq![s.tr, s.br, e.bl, e.tl],
            Direction::Still => Seq::empty(),
        }
    }

    /// Whether the block passes over `subject` on its way without ending on
    /// it: the end position does not overlap `subject` along both axes, and
    /// the swept quadrilateral meets the footprint of `subject`.
    pub open spec fn passes_over(self, subject: Cube) -> bool {
        &&& self.push_spec(subject) is None
        &&& polygon_intersects_rect(self.sweep_spec(), subject.bounds)
    }

    /// Whether the movement is well formed.
    pub fn is_wf(&self) -> (ok: bool)
        ensures
            ok == self.wf(),
    {
        self.start.is_wf() && self.end.is_wf() && self.start.size == self.end.size && self.dx
            == self.end.coord.x as i64 - self.start.coord.x as i64 && self.dy == self.end.coord.y as i64
            - self.start.coord.y as i64 && self.direction == Direction::from_deltas(self.dx, self.dy)
    }

    /// The movement from `start` to `end`, which must be of one size.
    pub fn new(start: Cube, end: Cube) -> (m: Movement)
        requires
            start.size == end.size,
        ensures
            m == Movement::new_spec(start, end),
            start.wf() && end.wf() ==> m.wf(),
    {
        let dx: i64 = end.coord.x as i64 - start.coord.x as i64;
        let dy: i64 = end.coord.y as i64 - start.coord.y as i64;
        Movement { start, end, direction: Direction::from_deltas(dx, dy), dx, dy }
    }

    /// The movement of `cube` by `(dx, dy)`.
    pub fn new_from_delta(cube: Cube, dx: i64, dy: i64) -> (m: Movement)
        requires
            shift_fits(cube.coord, dx as int, dy as int),
        ensures
            m == Movement::new_spec(cube, cube.translated_spec(dx as int, dy as int)),
            m.dx == dx,
            m.dy == dy,
            cube.wf() ==> m.wf(),
    {
        Movement::new(cube, cube.translated(dx, dy))
    }

    /// The swept quadrilateral, as the list of its corners.
    pub fn sweep(&self) -> (ring: Vec<Point>)
        ensures
            ring@ == self.sweep_spec(),
    {
        let s: Corners = self.start.corners();
        let e: Corners = self.end.corners();
        let ring = match self.direction {
            Direction::UpLeft | Direction::DownRight => vec![s.tr, s.bl, e.bl, e.tr],
            Direction::UpRight | Direction::DownLeft => vec![s.tl, s.br, e.br, e.tl],
            Direction::Up => vec![s.tl, s.tr, e.br, e.bl],
            Direction::Down => vec![s.bl, s.br, e.tr, e.tl],
            Direction::Left => vec![s.tl, s.bl, e.br, e.tr],
            Direction::Right => vec![s.tr, s.br, e.bl, e.tl],
            Direction::Still => Vec::new(),
        };
        assert(ring@ =~= self.sweep_spec());
        ring
    }

    /// The push that this movement gives to `subject`, as the two deltas.
    pub fn push(&self, subject: &Cube) -> (p: Option<(i64, i64)>)
        requires
            self.wf(),
            subject.wf(),
        ensures
            match p {
                Some(d) => self.push_spec(*subject) == Some((d.0 as int, d.1 as int)),
                None => self.push_spec(*subject) is None,
            },
    {
        let (overlap_x, overlap_y) = self.end.overlap(subject);
        if overlap_x > 0 && overlap_y > 0 {
            let own_x: i64 = 2 * (self.start.coord.x as i64) + self.start.size as i64;
            let own_y: i64 = 2 * (self.start.coord.y as i64) + self.start.size as i64;
            let other_x: i64 = 2 * (subject.coord.x as i64) + subject.size as i64;
            let other_y: i64 = 2 * (subject.coord.y as i64) + subject.size as i64;
            let cx_delta: i64 = if own_x < other_x {
                other_x - own_x
            } else {
                own_x - other_x
            };
            let cy_delta: i64 = if own_y < other_y {
                other_y - own_y
            } else {
                own_y - other_y
            };
            let d = match self.direction {
                Direction::UpLeft => {
                    if cx_delta > cy_delta {
                        (-overlap_x, 0)
                    } else if cx_delta < cy_delta {
                        (0, -overlap_y)
                    } else {
                        (-overlap_x, -overlap_y)
                    }
                },
                Direction::DownRight => {
                    if cx_delta < cy_delta {
                        (0, overlap_y)
                    } else if cx_delta > cy_delta {
                        (overlap_x, 0)
                    } else {
                        (overlap_x, overlap_y)
                    }
                },
                Direction::DownLeft => {
                    if cx_delta > cy_delta {
                        (-overlap_x, 0)
                    } else if cx_delta < cy_delta {
                        (0, overlap_y)
                    } else {
                        (-overlap_x, overlap_y)
                    }
                },
                Direction::UpRight => {
                    if cx_delta < cy_delta {
                        (0, -overlap_y)
                    } else if cx_delta > cy_delta {
                        (overlap_x, 0)
                    } else {
                        (overlap_x, -overlap_y)
                    }
                },
                Direction::Left => (-overlap_x, 0),
                Direction::Right => (overlap_x, 0),
                Direction::Up => (0, -overlap_y),
                Direction::Down => (0, overlap_y),
                Direction::Still => (0, 0),
            };
            Some(d)
        } else {
            None
        }
    }

    /// Whether the block passes over `subject` without ending on it.
    pub fn sweeps_over(&self, subject: &Cube) -> (over: bool)
        requires
            self.wf(),
            subject.wf(),
        ensures
            over == self.passes_over(*subject),
    {
        match self.push(subject) {
            Some(_) => false,
            None => {
                let ring = self.sweep();
                intersects_rect(&ring, subject.bounds)
            },
        }
    }

    /// The movement that this one causes in `subject`.
    ///
    /// Where the end position overlaps `subject` along both axes, `subject`
    /// is pushed out of the way. A block that only passes over `subject` on
    /// its way leaves it alone, as does one that never meets it.
    pub fn impact(&self, subject: Cube) -> (caused: Option<Movement>)
        requires
            self.wf(),
            subject.wf(),
            self.push_spec(subject) matches Some(p) ==> shift_fits(subject.coord, p.0, p.1),
        ensures
            caused == self.impact_spec(subject),
            caused matches Some(m) ==> m.wf() && m.start == subject,
    {
        match self.push(&subject) {
            Some(d) => Some(Movement::new(subject, subject.translated(d.0, d.1))),
            None => None,
        }
    }
}

} // verus!
