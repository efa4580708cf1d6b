use vstd::prelude::*;
use crate::game::board::{Board, BoardView};
use crate::game::direction::Direction;
use crate::game::piece::{ChessPiece, Piece, PieceType, Player};
use crate::game::piece_move::Move;
use crate::game::position::Position;

verus! {

#[derive(Clone, Copy, PartialEq, Eq, Structural, Debug)]
pub struct Bishop {
    pub player: Player,
}

impl Bishop {
    pub fn new(player: Player) -> (piece: Self)
        ensures
            piece.player == player,
    {
        Self { player }
    }

    /// The moves along one direction: onto each empty square up to the
    /// edge of the board or the first piece, and onto that piece if it is
    /// of the other colour.
    pub fn get_moves_in_direction(
        &self,
        from_position: Position,
        board: &Board,
        direction: Direction,
    ) -> (moves: Vec<Move>)
        requires
            direction.is_heading(),
            from_position.can_step(direction),
        ensures
            moves@ == board@.slide(self.player, from_position, direction),
            board@.is_whole_ray(moves@, self.player, from_position, direction),
    {
        board.slide_moves(self.player, from_position, direction)
    }

    /// The moves of this piece from `from`, direction by direction.
    pub open spec fn spec_moves(self, board: BoardView, from: Position) -> Seq<Move> {
        board.slide(self.player, from, Direction::north_east())
            + board.slide(self.player, from, Direction::north_west())
            + board.slide(self.player, from, Direction::south_east())
            + board.slide(self.player, from, Direction::south_west())
    }

    /// The moves of this piece, which stands on `from_position`.
    pub fn moves_from(&self, from_position: Position, board: &Board) -> (moves: Vec<Move>)
        requires
            Board::is_inside(from_position),
            board@.piece_at(from_position) == Some(Piece::Bishop(*self)),
        ensures
            moves@ == board@.pseudo_legal_moves(from_position),
    {
        let mut moves: Vec<Move> = Vec::new();

        moves.append(&mut self.get_moves_in_direction(from_position, board, Direction::north_east()));
        moves.append(&mut self.get_moves_in_direction(from_position, board, Direction::north_west()));
        moves.append(&mut self.get_moves_in_direction(from_position, board, Direction::south_east()));
        moves.append(&mut self.get_moves_in_direction(from_position, board, Direction::south_west()));

        moves
    }
}

impl ChessPiece for Bishop {
    open spec fn piece(&self) -> Piece {
        Piece::Bishop(*self)
    }

    fn get_color(&self) -> (color: Player)
        ensures
            color == self.player,
    {
        self.player
    }

    fn get_piece_type(&self) -> (piece_type: PieceType)
        ensures
            piece_type == PieceType::Bishop,
    {
        PieceType::Bishop
    }

    fn get_moves(&self, from_position: Position, board: &Board) -> (moves: Vec<Move>)
        ensures
            moves@ == self.spec_moves(board@, from_position),
    {
        self.moves_from(from_position, board)
    }

    fn get_has_moved(&self) -> (has_moved: bool)
        ensures
            !has_moved,
    {
        false
    }

    fn set_has_moved(&mut self)
        ensures
            *final(self) == *old(self),
    {
    }
}

} // verus!
