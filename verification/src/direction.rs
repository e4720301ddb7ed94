//! The nine classes of a displacement, by the signs of its two components.

use vstd::prelude::*;

verus! {

/// The class of a displacement `(dx, dy)`. The y axis points down.
#[derive(Clone, Copy, Debug, PartialEq, Eq, Structural)]
pub enum Direction {
    Still,
    Up,
    UpRight,
    Right,
    DownRight,
    Down,
    DownLeft,
    Left,
    UpLeft,
}

/// The sign of an integer: -1, 0 or 1.
pub open spec fn sign(v: int) -> int {
    if v < 0 {
        -1
    } else if v == 0 {
        0
    } else {
        1
    }
}

impl Direction {
    /// The direction that the table assigns to a pair of signs.
    pub open spec fn of_signs(sx: int, sy: int) -> Direction {
        if sx == 0 && sy < 0 {
            Direction::Up
        } else if sx > 0 && sy < 0 {
            Direction::UpRight
        } else if sx > 0 && sy == 0 {
            Direction::Right
        } else if sx > 0 && sy > 0 {
            Direction::DownRight
        } else if sx == 0 && sy > 0 {
            Direction::Down
        } else if sx < 0 && sy > 0 {
            Direction::DownLeft
        } else if sx < 0 && sy == 0 {
            Direction::Left
        } else if sx < 0 && sy < 0 {
            Direction::UpLeft
        } else {
            Direction::Still
        }
    }

    /// The sign of the x component of every displacement of this class.
    pub open spec fn sign_x(self) -> int {
        match self {
            Direction::UpRight | Direction::Right | Direction::DownRight => 1,
            Direction::UpLeft | Direction::Left | Direction::DownLeft => -1,
            _ => 0,
        }
    }

    /// The sign of the y component of every displacement of this class.
    pub open spec fn sign_y(self) -> int {
        match self {
            Direction::DownLeft | Direction::Down | Direction::DownRight => 1,
            Direction::UpLeft | Direction::Up | Direction::UpRight => -1,
            _ => 0,
        }
    }

    /// Whether both components are non-zero.
    pub open spec fn is_diagonal(self) -> bool {
        self.sign_x() != 0 && self.sign_y() != 0
    }

    /// Classifies a displacement by the signs of `dx` and `dy`.
    pub fn from_deltas(dx: i64, dy: i64) -> (d: Direction)
        ensures
            d == Direction::of_signs(sign(dx as int), sign(dy as int)),
            d.sign_x() == sign(dx as int),
            d.sign_y() == sign(dy as int),
    {
        if dx == 0 {
            if dy < 0 {
                Direction::Up
            } else if dy > 0 {
                Direction::Down
            } else {
                Direction::Still
            }
        } else if dx > 0 {
            if dy < 0 {
                Direction::UpRight
            } else if dy > 0 {
                Direction::DownRight
            } else {
                Direction::Right
            }
        } else {
            if dy < 0 {
                Direction::UpLeft
            } else if dy > 0 {
                Direction::DownLeft
            } else {
                Direction::Left
            }
        }
    }
}

/// The table maps the nine pairs of signs to nine different classes, and
/// every class comes from exactly the pair of its own signs.
pub proof fn lemma_direction_table_exact(sx: int, sy: int, tx: int, ty: int)
    requires
        -1 <= sx <= 1,
        -1 <= sy <= 1,
        -1 <= tx <= 1,
        -1 <= ty <= 1,
    ensures
        Direction::of_signs(sx, sy).sign_x() == sx,
        Direction::of_signs(sx, sy).sign_y() == sy,
        Direction::of_signs(sx, sy) == Direction::of_signs(tx, ty) <==> sx == tx && sy == ty,
        Direction::of_signs(0, -1) == Direction::Up,
        Direction::of_signs(1, -1) == Direction::UpRight,
        Direction::of_signs(1, 0) == Direction::Right,
        Direction::of_signs(1, 1) == Direction::DownRight,
        Direction::of_signs(0, 1) == Direction::Down,
        Direction::of_signs(-1, 1) == Direction::DownLeft,
        Direction::of_signs(-1, 0) == Direction::Left,
        Direction::of_signs(-1, -1) == Direction::UpLeft,
        Direction::of_signs(0, 0) == Direction::Still,
{
}

/// Every class is the class of some pair of signs: the table is onto.
pub proof fn lemma_direction_table_onto(d: Direction)
    ensures
        Direction::of_signs(d.sign_x(), d.sign_y()) == d,
{
}

} // verus!
