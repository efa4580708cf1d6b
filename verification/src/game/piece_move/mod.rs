use vstd::prelude::*;
use crate::game::board::{Board, BoardView};
use crate::game::piece_move::castle_move::CastleMove;
use crate::game::piece_move::double_pawn_move::DoublePawnMove;
use crate::game::piece_move::en_passant_move::EnPassantMove;
use crate::game::piece_move::normal_move::NormalMove;
use crate::game::piece_move::pawn_promotion_move::PawnPromotionMove;
use crate::game::position::Position;

pub mod castle_move;
pub mod double_pawn_move;
pub mod en_passant_move;
pub mod normal_move;
pub mod pawn_promotion_move;

verus! {

/// What every kind of move offers: where it starts and ends, and what it does
/// to a board.
pub trait ChessMove: Sized {
    /// The move as a value of the closed family of moves.
    spec fn as_move(&self) -> Move;

    /// Carries the move out. The move is not held to the rules here: any
    /// move that can be carried out at all is.
    fn execute(&self, board: &mut Board)
        requires
            self.as_move().can_apply(old(board)@),
        ensures
            final(board)@ == self.as_move().apply(old(board)@),
    ;

    fn get_to_pos(&self) -> (position: Position)
        ensures
            position == self.as_move().to_pos(),
    ;

    fn get_from_pos(&self) -> (position: Position)
        ensures
            position == self.as_move().from_pos(),
    ;

    fn is_pawn_promotion_move(&self) -> (promotion: bool)
        ensures
            promotion == (self.as_move() is PawnPromotion),
    ;
}

/// One move of the five kinds.
#[derive(Clone, Copy, PartialEq, Eq, Structural, Debug)]
pub enum Move {
    Normal(NormalMove),
    DoublePawn(DoublePawnMove),
    EnPassant(EnPassantMove),
    Castle(CastleMove),
    PawnPromotion(PawnPromotionMove),
}

impl Move {
    pub open spec fn from_pos(self) -> Position {
        match self {
            Move::Normal(m) => m.from_pos,
            Move::DoublePawn(m) => m.from_pos,
            Move::EnPassant(m) => m.from_pos,
            Move::Castle(m) => m.from_pos,
            Move::PawnPromotion(m) => m.from_pos,
        }
    }

    pub open spec fn to_pos(self) -> Position {
        match self {
            Move::Normal(m) => m.to_pos,
            Move::DoublePawn(m) => m.to_pos,
            Move::EnPassant(m) => m.to_pos,
            Move::Castle(m) => m.to_pos,
            Move::PawnPromotion(m) => m.to_pos,
        }
    }

    /// Whether the move can be carried out on `board`: whether every square
    /// it reads or writes is on the board and holds a piece where it takes
    /// one.
    pub open spec fn can_apply(self, board: BoardView) -> bool {
        match self {
            Move::Normal(m) => m.can_apply(board),
            Move::DoublePawn(m) => m.can_apply(board),
            Move::EnPassant(m) => m.can_apply(board),
            Move::Castle(m) => m.can_apply(board),
            Move::PawnPromotion(m) => m.can_apply(board),
        }
    }

    /// The board after the move.
    pub open spec fn apply(self, board: BoardView) -> BoardView {
        match self {
            Move::Normal(m) => m.apply(board),
            Move::DoublePawn(m) => m.apply(board),
            Move::EnPassant(m) => m.apply(board),
            Move::Castle(m) => m.apply(board),
            Move::PawnPromotion(m) => m.apply(board),
        }
    }
}

impl Move {
    /// Carries the move out. The move is not held to the rules here: any
    /// move that can be carried out at all is.
    pub fn execute(&self, board: &mut Board)
        requires
            self.can_apply(old(board)@),
        ensures
            final(board)@ == self.apply(old(board)@),
    {
        match self {
            Move::Normal(m) => m.execute(board),
            Move::DoublePawn(m) => m.execute(board),
            Move::EnPassant(m) => m.execute(board),
            Move::Castle(m) => m.execute(board),
            Move::PawnPromotion(m) => m.execute(board),
        }
    }

    pub fn get_to_pos(&self) -> (position: Position)
        ensures
            position == self.to_pos(),
    {
        match self {
            Move::Normal(m) => m.to_pos,
            Move::DoublePawn(m) => m.to_pos,
            Move::EnPassant(m) => m.to_pos,
            Move::Castle(m) => m.to_pos,
            Move::PawnPromotion(m) => m.to_pos,
        }
    }

    pub fn get_from_pos(&self) -> (position: Position)
        ensures
            position == self.from_pos(),
    {
        match self {
            Move::Normal(m) => m.from_pos,
            Move::DoublePawn(m) => m.from_pos,
            Move::EnPassant(m) => m.from_pos,
            Move::Castle(m) => m.from_pos,
            Move::PawnPromotion(m) => m.from_pos,
        }
    }

    pub fn is_pawn_promotion_move(&self) -> (promotion: bool)
        ensures
            promotion == (self is PawnPromotion),
    {
        match self {
            Move::PawnPromotion(_) => true,
            _ => false,
        }
    }
}

impl ChessMove for Move {
    open spec fn as_move(&self) -> Move {
        *self
    }

    fn execute(&self, board: &mut Board)
        ensures
            final(board)@ == self.apply(old(board)@),
    {
        Move::execute(self, board)
    }

    fn get_to_pos(&self) -> (position: Position)
        ensures
            position == self.to_pos(),
    {
        Move::get_to_pos(self)
    }

    fn get_from_pos(&self) -> (position: Position)
        ensures
            position == self.from_pos(),
    {
        Move::get_from_pos(self)
    }

    fn is_pawn_promotion_move(&self) -> (promotion: bool)
        ensures
            promotion == (self is PawnPromotion),
    {
        Move::is_pawn_promotion_move(self)
    }
}

} // verus!
