use vstd::prelude::*;
use crate::game::board::{Board, BoardView};
use crate::game::piece_move::{ChessMove, Move};
use crate::game::position::Position;

verus! {

/// A pawn takes, on the skipped square, the pawn that has just passed it.
#[derive(Clone, Copy, PartialEq, Eq, Structural, Debug)]
pub struct EnPassantMove {
    pub from_pos: Position,
    pub to_pos: Position,
}

impl EnPassantMove {
    pub fn new(from_pos: Position, to_pos: Position) -> (piece_move: Self)
        ensures
            piece_move.from_pos == from_pos,
            piece_move.to_pos == to_pos,
    {
        Self { from_pos, to_pos }
    }

    /// Both squares lie on the board, a piece stands on the first, and the
    /// square one step behind the second, as that piece's colour advances,
    /// lies on the board too.
    pub open spec fn can_apply(self, board: BoardView) -> bool {
        &&& Board::is_inside(self.from_pos)
        &&& Board::is_inside(self.to_pos)
        &&& !board.is_empty(self.from_pos)
        &&& Board::is_inside(self.to_pos.plus(board.squares[self.from_pos].color().backward()))
    }

    /// The pawn stands on the second square, marked as moved; the first
    /// square and the square one step behind the second are empty; no
    /// square can be taken en passant.
    pub open spec fn apply(self, board: BoardView) -> BoardView {
        let color = board.squares[self.from_pos].color();
        board.relocate(self.from_pos, self.to_pos).with_square(
            self.to_pos.plus(color.backward()),
            None,
        ).with_en_passant(None)
    }
}

impl ChessMove for EnPassantMove {
    open spec fn as_move(&self) -> Move {
        Move::EnPassant(*self)
    }

    fn execute(&self, board: &mut Board)
        ensures
            final(board)@ == self.apply(old(board)@),
    {
        let mut piece = board.get(self.from_pos).unwrap();

        piece.set_has_moved();

        let direction = piece.get_color().backward();

        board.set(self.from_pos, None);
        board.set(self.to_pos, Some(piece));
        board.set(self.to_pos.step(direction), None);

        board.en_passant = None;
    }

    fn get_to_pos(&self) -> (position: Position)
        ensures
            position == self.to_pos,
    {
        self.to_pos
    }

    fn get_from_pos(&self) -> (position: Position)
        ensures
            position == self.from_pos,
    {
        self.from_pos
    }

    fn is_pawn_promotion_move(&self) -> (promotion: bool)
        ensures
            !promotion,
    {
        return false
    }
}

} // verus!
