use vstd::prelude::*;
use crate::game::piece::PieceType;

verus! {

/// How many pieces of each kind one player has.
#[derive(Clone, Copy, PartialEq, Eq, Structural, Debug)]
pub struct PieceTally {
    pub pawns: i8,
    pub knights: i8,
    pub bishops: i8,
    pub rooks: i8,
    pub queens: i8,
    pub kings: i8,
}

impl PieceTally {
    /// The number counted of the kind `piece_type`.
    pub open spec fn of(self, piece_type: PieceType) -> int {
        match piece_type {
            PieceType::Pawn => self.pawns as int,
            PieceType::Knight => self.knights as int,
            PieceType::Bishop => self.bishops as int,
            PieceType::Rook => self.rooks as int,
            PieceType::Queen => self.queens as int,
            PieceType::King => self.kings as int,
        }
    }

    /// A tally of nothing.
    pub fn new() -> (tally: Self)
        ensures
            forall|piece_type: PieceType| tally.of(piece_type) == 0,
    {
        PieceTally { pawns: 0, knights: 0, bishops: 0, rooks: 0, queens: 0, kings: 0 }
    }

    /// The number counted of the kind `piece_type`, or nothing where none
    /// was counted.
    pub fn get(&self, piece_type: PieceType) -> (number: Option<i8>)
        ensures
            number == if self.of(piece_type) == 0 {
                None
            } else {
                Some(self.of(piece_type) as i8)
            },
    {
        let number = match piece_type {
            PieceType::Pawn => self.pawns,
            PieceType::Knight => self.knights,
            PieceType::Bishop => self.bishops,
            PieceType::Rook => self.rooks,
            PieceType::Queen => self.queens,
            PieceType::King => self.kings,
        };
        if number == 0 {
            None
        } else {
            Some(number)
        }
    }

    /// Counts one more piece of the kind `piece_type`.
    pub fn record(&mut self, piece_type: PieceType)
        requires
            old(self).of(piece_type) < i8::MAX,
        ensures
            final(self).of(piece_type) == old(self).of(piece_type) + 1,
            forall|other: PieceType|
                other != piece_type ==> final(self).of(other) == old(self).of(other),
    {
        match piece_type {
            PieceType::Pawn => {
                self.pawns = self.pawns + 1;
            },
            PieceType::Knight => {
                self.knights = self.knights + 1;
            },
            PieceType::Bishop => {
                self.bishops = self.bishops + 1;
            },
            PieceType::Rook => {
                self.rooks = self.rooks + 1;
            },
            PieceType::Queen => {
                self.queens = self.queens + 1;
            },
            PieceType::King => {
                self.kings = self.kings + 1;
            },
        }
    }
}

/// The pieces on a board, counted: all of them, and each player's by kind.
#[derive(Clone, Copy, PartialEq, Eq, Structural, Debug)]
pub struct PieceCounting {
    pub total_pieces: i32,
    pub black_pieces: PieceTally,
    pub white_pieces: PieceTally,
}

} // verus!
