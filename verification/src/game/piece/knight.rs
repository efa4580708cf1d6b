use vstd::prelude::*;
use crate::game::board::{Board, BoardView};
use crate::game::direction::Direction;
use crate::game::piece::{ChessPiece, Piece, PieceType, Player};
use crate::game::piece_move::Move;
use crate::game::position::Position;

verus! {

#[derive(Clone, Copy, PartialEq, Eq, Structural, Debug)]
pub struct Knight {
    pub player: Player,
}

impl Knight {
    pub fn new(player: Player) -> (piece: Self)
        ensures
            piece.player == player,
    {
        Self { player }
    }

    /// The leap by `offset`, if it ends on the board and not on a piece of
    /// the knight's own colour.
    pub open spec fn leap(self, board: BoardView, from: Position, offset: Direction) -> Seq<Move> {
        board.hop(self.player, from, from.plus(offset))
    }

    /// The moves of this knight from `from`: the eight leaps of two squares
    /// one way and one square across, as far as the board and the
    /// knight's own pieces allow.
    pub open spec fn spec_moves(self, board: BoardView, from: Position) -> Seq<Move> {
        self.leap(board, from, Direction { column_delta: 1, row_delta: -2i32 })
            + self.leap(board, from, Direction { column_delta: 2, row_delta: -1i32 })
            + self.leap(board, from, Direction { column_delta: -1i32, row_delta: -2i32 })
            + self.leap(board, from, Direction { column_delta: -2i32, row_delta: -1i32 })
            + self.leap(board, from, Direction { column_delta: 1, row_delta: 2 })
            + self.leap(board, from, Direction { column_delta: 2, row_delta: 1 })
            + self.leap(board, from, Direction { column_delta: -1i32, row_delta: 2 })
            + self.leap(board, from, Direction { column_delta: -2i32, row_delta: 1 })
    }

    /// The moves of this piece, which stands on `from_position`.
    pub fn moves_from(&self, from_position: Position, board: &Board) -> (moves: Vec<Move>)
        requires
            Board::is_inside(from_position),
            board@.piece_at(from_position) == Some(Piece::Knight(*self)),
        ensures
            moves@ == board@.pseudo_legal_moves(from_position),
    {
        let mut moves: Vec<Move> = Vec::new();

        board.push_hop(
            &mut moves,
            self.player,
            from_position,
            from_position + (Direction::north() * 2).into() + Direction::east().into(),
        );
        board.push_hop(
            &mut moves,
            self.player,
            from_position,
            from_position + (Direction::east() * 2).into() + Direction::north().into(),
        );
        board.push_hop(
            &mut moves,
            self.player,
            from_position,
            from_position + (Direction::north() * 2).into() + Direction::west().into(),
        );
        board.push_hop(
            &mut moves,
            self.player,
            from_position,
            from_position + (Direction::west() * 2).into() + Direction::north().into(),
        );
        board.push_hop(
            &mut moves,
            self.player,
            from_position,
            from_position + (Direction::south() * 2).into() + Direction::east().into(),
        );
        board.push_hop(
            &mut moves,
            self.player,
            from_position,
            from_position + (Direction::east() * 2).into() + Direction::south().into(),
        );
        board.push_hop(
            &mut moves,
            self.player,
            from_position,
            from_position + (Direction::south() * 2).into() + Direction::west().into(),
        );
        board.push_hop(
            &mut moves,
            self.player,
            from_position,
            from_position + (Direction::west() * 2).into() + Direction::south().into(),
        );

        assert(moves@ =~= self.spec_moves(board@, from_position));
        moves
    }
}

impl ChessPiece for Knight {
    open spec fn piece(&self) -> Piece {
        Piece::Knight(*self)
    }

    fn get_color(&self) -> (color: Player)
        ensures
            color == self.player,
    {
        self.player
    }

    fn get_piece_type(&self) -> (piece_type: PieceType)
        ensures
            piece_type == PieceType::Knight,
    {
        PieceType::Knight
    }

    fn get_moves(&self, from_position: Position, board: &Board) -> (moves: Vec<Move>)
        ensures
            moves@ == self.spec_moves(board@, from_position),
    {
        self.moves_from(from_position, board)
    }

    fn get_has_moved(&self) -> (has_moved: bool)
        ensures
            !has_moved,
    {
        false
    }

    fn set_has_moved(&mut self)
        ensures
            *final(self) == *old(self),
    {
    }
}

} // verus!
