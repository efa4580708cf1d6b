use vstd::prelude::*;
use vstd::std_specs::ops::AddSpecImpl;
use crate::game::direction::Direction;
use crate::game::piece::Player;

verus! {

/// A square, named by its column and row. On the board both lie between 0 and
/// 7; nothing keeps a `Position` from naming a square off the board.
#[derive(Clone, Copy, PartialEq, Eq, Structural, Hash, Debug)]
pub struct Position {
    pub column: i32,
    pub row: i32,
}

impl Position {
    pub fn new(column: i32, row: i32) -> (position: Self)
        ensures
            position.column == column,
            position.row == row,
    {
        Self { column, row }
    }

    /// The square one step of `direction` away.
    pub open spec fn plus(self, direction: Direction) -> Position {
        Position {
            column: (self.column + direction.column_delta) as i32,
            row: (self.row + direction.row_delta) as i32,
        }
    }

    /// The square `count` steps of `direction` away.
    pub open spec fn plus_times(self, direction: Direction, count: int) -> Position {
        Position {
            column: (self.column + count * direction.column_delta) as i32,
            row: (self.row + count * direction.row_delta) as i32,
        }
    }

    /// Whether one step of `direction` from here stays within `i32`.
    pub open spec fn can_step(self, direction: Direction) -> bool {
        &&& i32::MIN <= self.column + direction.column_delta <= i32::MAX
        &&& i32::MIN <= self.row + direction.row_delta <= i32::MAX
    }

    /// Moves one step of `direction`.
    pub fn step(self, direction: Direction) -> (position: Position)
        requires
            self.can_step(direction),
        ensures
            position == self.plus(direction),
    {
        Position { column: self.column + direction.column_delta, row: self.row + direction.row_delta }
    }

    /// The colour of the square: white where column and row have an even sum.
    pub open spec fn spec_square_color(&self) -> Player {
        if (self.column + self.row) % 2 == 0 {
            Player::White
        } else {
            Player::Black
        }
    }

    #[verifier::when_used_as_spec(spec_square_color)]
    pub fn square_color(&self) -> (color: Player)
        requires
            i32::MIN <= self.column + self.row <= i32::MAX,
        ensures
            color == self.spec_square_color(),
    {
        if (self.column + self.row) % 2 == 0 {
            return Player::White;
        }
        Player::Black
    }
}

impl core::ops::Add for Position {
    type Output = Position;

    fn add(self, rhs: Position) -> (sum: Position)
        ensures
            sum.column == self.column + rhs.column,
            sum.row == self.row + rhs.row,
    {
        Position { column: self.column + rhs.column, row: self.row + rhs.row }
    }
}

impl AddSpecImpl for Position {
    open spec fn obeys_add_spec() -> bool {
        true
    }

    /// The sum of two positions needs both coordinate sums to fit.
    open spec fn add_req(self, rhs: Position) -> bool {
        &&& i32::MIN <= self.column + rhs.column <= i32::MAX
        &&& i32::MIN <= self.row + rhs.row <= i32::MAX
    }

    open spec fn add_spec(self, rhs: Position) -> Position {
        Position { column: (self.column + rhs.column) as i32, row: (self.row + rhs.row) as i32 }
    }
}

} // verus!
