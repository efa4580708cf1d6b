use vstd::prelude::*;
use crate::game::board::{Board, BoardView};
use crate::game::direction::Direction;
use crate::game::piece::{ChessPiece, Piece, PieceType, Player};
use crate::game::piece_move::double_pawn_move::DoublePawnMove;
use crate::game::piece_move::en_passant_move::EnPassantMove;
use crate::game::piece_move::normal_move::NormalMove;
use crate::game::piece_move::pawn_promotion_move::PawnPromotionMove;
use crate::game::piece_move::Move;
use crate::game::position::Position;

verus! {

#[derive(Clone, Copy, PartialEq, Eq, Structural, Debug)]
pub struct Pawn {
    pub player: Player,
    pub has_moved: bool,
}

impl Pawn {
    pub fn new(player: Player) -> (piece: Self)
        ensures
            piece.player == player,
            !piece.has_moved,
    {
        Self { player, has_moved: false }
    }

    /// A pawn's move as it is offered: a promotion where it ends on row 0
    /// or row 7, else the move itself.
    pub open spec fn promoted(from: Position, piece_move: Move) -> Move {
        if piece_move.to_pos().row == 7 || piece_move.to_pos().row == 0 {
            Move::PawnPromotion(PawnPromotionMove { from_pos: from, to_pos: piece_move.to_pos() })
        } else {
            piece_move
        }
    }

    /// `piece_move` as it is offered, if it ends on an empty square of the
    /// board; else nothing.
    pub open spec fn quiet(board: BoardView, from: Position, piece_move: Move) -> Seq<Move> {
        if Board::is_inside(piece_move.to_pos()) && board.is_empty(piece_move.to_pos()) {
            seq![Self::promoted(from, piece_move)]
        } else {
            Seq::empty()
        }
    }

    /// The capture on `to` as it is offered, if `to` lies on the board and
    /// holds a piece of the other colour; else nothing.
    pub open spec fn strike(self, board: BoardView, from: Position, to: Position) -> Seq<Move> {
        if Board::is_inside(to) && !board.is_empty(to) && board.squares[to].color() != self.player {
            seq![Self::promoted(from, Move::Normal(NormalMove { from_pos: from, to_pos: to }))]
        } else {
            Seq::empty()
        }
    }

    /// The square ahead of `from` and one column to the west, as this
    /// pawn advances.
    pub open spec fn west_of_ahead(self, from: Position) -> Position {
        from.plus(self.player.forward()).plus(Direction::west())
    }

    /// The square ahead of `from` and one column to the east.
    pub open spec fn east_of_ahead(self, from: Position) -> Position {
        from.plus(self.player.forward()).plus(Direction::east())
    }

    /// The double step from `from`, offered to a pawn that has not moved
    /// while the square ahead of it is empty.
    pub open spec fn double_step(self, board: BoardView, from: Position) -> Seq<Move> {
        let ahead = from.plus(self.player.forward());
        if !self.has_moved && Board::is_inside(ahead) && board.is_empty(ahead) {
            Self::quiet(
                board,
                from,
                Move::DoublePawn(
                    DoublePawnMove { from_pos: from, to_pos: from.plus_times(self.player.forward(), 2) },
                ),
            )
        } else {
            Seq::empty()
        }
    }

    /// The capture en passant from `from`, offered while the square that
    /// can be so taken lies diagonally ahead.
    pub open spec fn passing_capture(self, board: BoardView, from: Position) -> Seq<Move> {
        match board.en_passant {
            Some(target) => if target == self.west_of_ahead(from) || target == self.east_of_ahead(
                from,
            ) {
                Self::quiet(board, from, Move::EnPassant(EnPassantMove { from_pos: from, to_pos: target }))
            } else {
                Seq::empty()
            },
            None => Seq::empty(),
        }
    }

    /// The moves of this pawn from `from`: the step ahead, the double
    /// step, the capture en passant, then the captures to the west and to
    /// the east; each as a promotion where it ends on the first or last
    /// row.
    pub open spec fn spec_moves(self, board: BoardView, from: Position) -> Seq<Move> {
        let ahead = from.plus(self.player.forward());
        Self::quiet(board, from, Move::Normal(NormalMove { from_pos: from, to_pos: ahead }))
            + self.double_step(board, from) + self.passing_capture(board, from) + self.strike(
            board,
            from,
            self.west_of_ahead(from),
        ) + self.strike(board, from, self.east_of_ahead(from))
    }

    /// Turns a move onto the first or last row into a promotion.
    fn promote(from_position: Position, piece_move: Move) -> (offered: Move)
        ensures
            offered == Self::promoted(from_position, piece_move),
    {
        if piece_move.get_to_pos().row == 7 || piece_move.get_to_pos().row == 0 {
            return Move::PawnPromotion(PawnPromotionMove::new(from_position, piece_move.get_to_pos()));
        }
        return piece_move
    }

    /// Adds `piece_move` as it is offered, if it ends on an empty square
    /// of the board.
    fn push_quiet(board: &Board, moves: &mut Vec<Move>, from_position: Position, piece_move: Move)
        ensures
            final(moves)@ == old(moves)@ + Self::quiet(board@, from_position, piece_move),
    {
        if Board::is_inside(piece_move.get_to_pos()) && board.is_empty(piece_move.get_to_pos()) {
            moves.push(Self::promote(from_position, piece_move));
        }
        assert(moves@ =~= old(moves)@ + Self::quiet(board@, from_position, piece_move));
    }

    /// Adds the capture on `to_position` as it is offered, if that square
    /// lies on the board and holds a piece of the other colour.
    fn push_strike(
        &self,
        board: &Board,
        moves: &mut Vec<Move>,
        from_position: Position,
        to_position: Position,
    )
        ensures
            final(moves)@ == old(moves)@ + self.strike(board@, from_position, to_position),
    {
        if Board::is_inside(to_position) {
            if let Some(piece) = board.get(to_position) {
                if piece.get_color() != self.player {
                    moves.push(
                        Self::promote(
                            from_position,
                            Move::Normal(NormalMove::new(from_position, to_position)),
                        ),
                    );
                }
            }
        }
        assert(moves@ =~= old(moves)@ + self.strike(board@, from_position, to_position));
    }

    /// The moves of this piece, which stands on `from_position`.
    pub fn moves_from(&self, from_position: Position, board: &Board) -> (moves: Vec<Move>)
        requires
            Board::is_inside(from_position),
            board@.piece_at(from_position) == Some(Piece::Pawn(*self)),
        ensures
            moves@ == board@.pseudo_legal_moves(from_position),
    {
        let mut moves: Vec<Move> = Vec::new();

        let direction = self.player.forward();
        let ahead = from_position + direction.into();

        Self::push_quiet(board, &mut moves, from_position, Move::Normal(NormalMove::new(from_position, ahead)));
        if !self.has_moved && Board::is_inside(ahead) && board.is_empty(ahead) {
            Self::push_quiet(
                board,
                &mut moves,
                from_position,
                Move::DoublePawn(
                    DoublePawnMove::new(from_position, from_position + (direction * 2).into()),
                ),
            );
        }
        let west = from_position + (direction + Direction::west()).into();
        let east = from_position + (direction + Direction::east()).into();

        if let Some(en_passant) = board.en_passant {
            if en_passant == west || en_passant == east {
                Self::push_quiet(
                    board,
                    &mut moves,
                    from_position,
                    Move::EnPassant(EnPassantMove::new(from_position, en_passant)),
                );
            }
        }
        self.push_strike(board, &mut moves, from_position, west);
        self.push_strike(board, &mut moves, from_position, east);

        assert(moves@ =~= self.spec_moves(board@, from_position));
        moves
    }
}

impl ChessPiece for Pawn {
    open spec fn piece(&self) -> Piece {
        Piece::Pawn(*self)
    }

    fn get_color(&self) -> (color: Player)
        ensures
            color == self.player,
    {
        self.player
    }

    fn get_piece_type(&self) -> (piece_type: PieceType)
        ensures
            piece_type == PieceType::Pawn,
    {
        PieceType::Pawn
    }

    fn get_moves(&self, from_position: Position, board: &Board) -> (moves: Vec<Move>)
        ensures
            moves@ == self.spec_moves(board@, from_position),
    {
        self.moves_from(from_position, board)
    }

    fn get_has_moved(&self) -> (has_moved: bool)
        ensures
            has_moved == self.has_moved,
    {
        self.has_moved
    }

    fn set_has_moved(&mut self)
        ensures
            final(self).has_moved,
            final(self).player == old(self).player,
    {
        self.has_moved = true
    }
}

} // verus!
