use vstd::prelude::*;
use crate::game::board::{Board, BoardView};
use crate::game::piece_move::{ChessMove, Move};
use crate::game::position::Position;

verus! {

/// The king goes two squares toward a rook, and the rook jumps over it.
#[derive(Clone, Copy, PartialEq, Eq, Structural, Debug)]
pub struct CastleMove {
    pub from_pos: Position,
    pub to_pos: Position,
}

impl CastleMove {
    pub fn new(from_pos: Position, to_pos: Position) -> (piece_move: Self)
        ensures
            piece_move.from_pos == from_pos,
            piece_move.to_pos == to_pos,
    {
        Self { from_pos, to_pos }
    }

    /// Both squares lie on the board, a piece stands on the first, and where
    /// the second lies in column 2 or 6, a piece stands in the near corner
    /// of its row.
    pub open spec fn can_apply(self, board: BoardView) -> bool {
        &&& Board::is_inside(self.from_pos)
        &&& Board::is_inside(self.to_pos)
        &&& !board.is_empty(self.from_pos)
        &&& self.to_pos.column == 2 ==> !board.is_empty(Position { column: 0, row: self.to_pos.row })
        &&& self.to_pos.column == 6 ==> !board.is_empty(Position { column: 7, row: self.to_pos.row })
    }

    /// The board after the rook's part of the move: where the king lands in
    /// column 2, the piece in column 0 of that row goes to column 3; where
    /// it lands in column 6, the piece in column 7 goes to column 5. Either
    /// is marked as moved.
    pub open spec fn rook_jump(self, board: BoardView) -> BoardView {
        let row = self.to_pos.row;
        if self.to_pos.column == 2 {
            board.relocate(Position { column: 0, row }, Position { column: 3, row })
        } else if self.to_pos.column == 6 {
            board.relocate(Position { column: 7, row }, Position { column: 5, row })
        } else {
            board
        }
    }

    /// After the rook's jump the king stands on the second square, marked
    /// as moved; the first square is empty; no square can be taken en
    /// passant.
    pub open spec fn apply(self, board: BoardView) -> BoardView {
        self.rook_jump(board).with_square(self.from_pos, None).with_square(
            self.to_pos,
            Some(board.squares[self.from_pos].moved()),
        ).with_en_passant(None)
    }
}

impl ChessMove for CastleMove {
    open spec fn as_move(&self) -> Move {
        Move::Castle(*self)
    }

    fn execute(&self, board: &mut Board)
        ensures
            final(board)@ == self.apply(old(board)@),
    {
        let mut piece = board.get(self.from_pos).unwrap();

        piece.set_has_moved();

        if self.to_pos.column == 2 {
            let corner = Position::new(0, self.to_pos.row);
            let mut rook = board.get(corner).unwrap();

            rook.set_has_moved();

            board.set(corner, None);
            board.set(Position::new(3, self.to_pos.row), Some(rook));
        }

        if self.to_pos.column == 6 {
            let corner = Position::new(7, self.to_pos.row);
            let mut rook = board.get(corner).unwrap();

            rook.set_has_moved();

            board.set(corner, None);
            board.set(Position::new(5, self.to_pos.row), Some(rook));
        }

        board.set(self.from_pos, None);
        board.set(self.to_pos, Some(piece));

        board.en_passant = None;
    }

    fn get_to_pos(&self) -> (position: Position)
        ensures
            position == self.to_pos,
    {
        self.to_pos
    }

    fn get_from_pos(&self) -> (position: Position)
        ensures
            position == self.from_pos,
    {
        self.from_pos
    }

    fn is_pawn_promotion_move(&self) -> (promotion: bool)
        ensures
            !promotion,
    {
        return false
    }
}

} // verus!
