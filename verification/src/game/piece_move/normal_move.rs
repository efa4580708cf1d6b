use vstd::prelude::*;
use crate::game::board::{Board, BoardView};
use crate::game::piece_move::{ChessMove, Move};
use crate::game::position::Position;

verus! {

/// A piece goes from one square to another and takes what stands there.
#[derive(Clone, Copy, PartialEq, Eq, Structural, Debug)]
pub struct NormalMove {
    pub from_pos: Position,
    pub to_pos: Position,
}

impl NormalMove {
    pub fn new(from_pos: Position, to_pos: Position) -> (piece_move: Self)
        ensures
            piece_move.from_pos == from_pos,
            piece_move.to_pos == to_pos,
    {
        Self { from_pos, to_pos }
    }

    /// Both squares lie on the board and a piece stands on the first.
    pub open spec fn can_apply(self, board: BoardView) -> bool {
        &&& Board::is_inside(self.from_pos)
        &&& Board::is_inside(self.to_pos)
        &&& !board.is_empty(self.from_pos)
    }

    /// The piece stands on the second square, marked as moved; the first
    /// square is empty; no square can be taken en passant.
    pub open spec fn apply(self, board: BoardView) -> BoardView {
        board.relocate(self.from_pos, self.to_pos).with_en_passant(None)
    }
}

impl ChessMove for NormalMove {
    open spec fn as_move(&self) -> Move {
        Move::Normal(*self)
    }

    fn execute(&self, board: &mut Board)
        ensures
            final(board)@ == self.apply(old(board)@),
    {
        let mut piece = board.get(self.from_pos).unwrap();

        piece.set_has_moved();

        board.set(self.from_pos, None);
        board.set(self.to_pos, Some(piece));

        board.en_passant = None;
    }

    fn get_to_pos(&self) -> (position: Position)
        ensures
            position == self.to_pos,
    {
        self.to_pos
    }

    fn get_from_pos(&self) -> (position: Position)
        ensures
            position == self.from_pos,
    {
        self.from_pos
    }

    fn is_pawn_promotion_move(&self) -> (promotion: bool)
        ensures
            !promotion,
    {
        return false
    }
}

} // verus!
