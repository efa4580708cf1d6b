use vstd::prelude::*;
use vstd::std_specs::convert::FromSpecImpl;
use vstd::std_specs::ops::{AddSpecImpl, MulSpecImpl};
use crate::game::position::Position;

verus! {

/// A step on the board: how far a move goes along the columns and along the
/// rows. Row 0 lies in the north, column 0 in the west.
#[derive(Clone, Copy, PartialEq, Eq, Structural, Debug)]
pub struct Direction {
    pub column_delta: i32,
    pub row_delta: i32,
}

impl Direction {
    pub open spec fn spec_north() -> Direction {
        Direction { column_delta: 0, row_delta: -1i32 }
    }

    /// One row toward row 0.
    #[verifier::when_used_as_spec(spec_north)]
    pub fn north() -> (direction: Direction)
        ensures
            direction == Self::spec_north(),
    {
        Direction { column_delta: 0, row_delta: -1i32 }
    }

    pub open spec fn spec_south() -> Direction {
        Direction { column_delta: 0, row_delta: 1 }
    }

    /// One row toward row 7.
    #[verifier::when_used_as_spec(spec_south)]
    pub fn south() -> (direction: Direction)
        ensures
            direction == Self::spec_south(),
    {
        Direction { column_delta: 0, row_delta: 1 }
    }

    pub open spec fn spec_east() -> Direction {
        Direction { column_delta: 1, row_delta: 0 }
    }

    /// One column toward column 7.
    #[verifier::when_used_as_spec(spec_east)]
    pub fn east() -> (direction: Direction)
        ensures
            direction == Self::spec_east(),
    {
        Direction { column_delta: 1, row_delta: 0 }
    }

    pub open spec fn spec_west() -> Direction {
        Direction { column_delta: -1i32, row_delta: 0 }
    }

    /// One column toward column 0.
    #[verifier::when_used_as_spec(spec_west)]
    pub fn west() -> (direction: Direction)
        ensures
            direction == Self::spec_west(),
    {
        Direction { column_delta: -1i32, row_delta: 0 }
    }

    pub open spec fn spec_north_east() -> Direction {
        Direction { column_delta: 1, row_delta: -1i32 }
    }

    /// North and east at once.
    #[verifier::when_used_as_spec(spec_north_east)]
    pub fn north_east() -> (direction: Direction)
        ensures
            direction == Self::spec_north_east(),
    {
        Direction { column_delta: 1, row_delta: -1i32 }
    }

    pub open spec fn spec_south_east() -> Direction {
        Direction { column_delta: 1, row_delta: 1 }
    }

    /// South and east at once.
    #[verifier::when_used_as_spec(spec_south_east)]
    pub fn south_east() -> (direction: Direction)
        ensures
            direction == Self::spec_south_east(),
    {
        Direction { column_delta: 1, row_delta: 1 }
    }

    pub open spec fn spec_north_west() -> Direction {
        Direction { column_delta: -1i32, row_delta: -1i32 }
    }

    /// North and west at once.
    #[verifier::when_used_as_spec(spec_north_west)]
    pub fn north_west() -> (direction: Direction)
        ensures
            direction == Self::spec_north_west(),
    {
        Direction { column_delta: -1i32, row_delta: -1i32 }
    }

    pub open spec fn spec_south_west() -> Direction {
        Direction { column_delta: -1i32, row_delta: 1 }
    }

    /// South and west at once.
    #[verifier::when_used_as_spec(spec_south_west)]
    pub fn south_west() -> (direction: Direction)
        ensures
            direction == Self::spec_south_west(),
    {
        Direction { column_delta: -1i32, row_delta: 1 }
    }

    /// A direction that leads somewhere, with deltas small enough that one
    /// step from a square of the board cannot leave the range of `i32`.
    pub open spec fn is_heading(self) -> bool {
        &&& self.column_delta != 0 || self.row_delta != 0
        &&& i32::MIN + 8 <= self.column_delta <= i32::MAX - 8
        &&& i32::MIN + 8 <= self.row_delta <= i32::MAX - 8
    }

    /// How many squares of the board lie at most ahead of `position` along
    /// this direction, `position` itself counted: 0 off the board.
    pub open spec fn room(self, position: Position) -> nat {
        if !(0 <= position.column < 8 && 0 <= position.row < 8) {
            0
        } else if self.column_delta > 0 {
            (8 - position.column) as nat
        } else if self.column_delta < 0 {
            (position.column + 1) as nat
        } else if self.row_delta > 0 {
            (8 - position.row) as nat
        } else {
            (position.row + 1) as nat
        }
    }

    pub fn new(column_delta: i32, row_delta: i32) -> (direction: Self)
        ensures
            direction.column_delta == column_delta,
            direction.row_delta == row_delta,
    {
        Self { column_delta, row_delta }
    }
}

impl core::ops::Add for Direction {
    type Output = Direction;

    fn add(self, rhs: Direction) -> (sum: Direction)
        ensures
            sum.column_delta == self.column_delta + rhs.column_delta,
            sum.row_delta == self.row_delta + rhs.row_delta,
    {
        Direction {
            column_delta: self.column_delta + rhs.column_delta,
            row_delta: self.row_delta + rhs.row_delta,
        }
    }
}

impl AddSpecImpl for Direction {
    open spec fn obeys_add_spec() -> bool {
        true
    }

    open spec fn add_req(self, rhs: Direction) -> bool {
        &&& i32::MIN <= self.column_delta + rhs.column_delta <= i32::MAX
        &&& i32::MIN <= self.row_delta + rhs.row_delta <= i32::MAX
    }

    open spec fn add_spec(self, rhs: Direction) -> Direction {
        Direction {
            column_delta: (self.column_delta + rhs.column_delta) as i32,
            row_delta: (self.row_delta + rhs.row_delta) as i32,
        }
    }
}

impl core::ops::Mul<i32> for Direction {
    type Output = Direction;

    fn mul(self, rhs: i32) -> (product: Direction)
        ensures
            product.column_delta == self.column_delta * rhs,
            product.row_delta == self.row_delta * rhs,
    {
        Direction { column_delta: self.column_delta * rhs, row_delta: self.row_delta * rhs }
    }
}

impl MulSpecImpl<i32> for Direction {
    open spec fn obeys_mul_spec() -> bool {
        true
    }

    open spec fn mul_req(self, rhs: i32) -> bool {
        &&& i32::MIN <= self.column_delta * rhs <= i32::MAX
        &&& i32::MIN <= self.row_delta * rhs <= i32::MAX
    }

    open spec fn mul_spec(self, rhs: i32) -> Direction {
        Direction {
            column_delta: (self.column_delta * rhs) as i32,
            row_delta: (self.row_delta * rhs) as i32,
        }
    }
}

impl core::convert::From<Direction> for Position {
    fn from(direction: Direction) -> (position: Position)
        ensures
            position.column == direction.column_delta,
            position.row == direction.row_delta,
    {
        Position::new(direction.column_delta, direction.row_delta)
    }
}

impl FromSpecImpl<Direction> for Position {
    open spec fn obeys_from_spec() -> bool {
        true
    }

    open spec fn from_spec(direction: Direction) -> Position {
        Position { column: direction.column_delta, row: direction.row_delta }
    }
}

} // verus!
