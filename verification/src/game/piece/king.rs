use vstd::prelude::*;
use crate::game::board::{Board, BoardView};
use crate::game::direction::Direction;
use crate::game::piece::{ChessPiece, Piece, PieceType, Player};
use crate::game::piece_move::castle_move::CastleMove;
use crate::game::piece_move::normal_move::NormalMove;
use crate::game::piece_move::Move;
use crate::game::position::Position;
use crate::game::proofs::lemma_king_step_lowers_count;

verus! {

#[derive(Clone, Copy, PartialEq, Eq, Structural, Debug)]
pub struct King {
    pub player: Player,
    pub has_moved: bool,
}

impl King {
    pub fn new(player: Player) -> (piece: Self)
        ensures
            piece.player == player,
            !piece.has_moved,
    {
        Self { player, has_moved: false }
    }

    /// The step along one direction, if it ends on the board and not on a
    /// piece of the king's own colour.
    pub fn get_moves_in_direction(
        &self,
        from_position: Position,
        board: &Board,
        direction: Direction,
    ) -> (moves: Vec<Move>)
        requires
            from_position.can_step(direction),
        ensures
            moves@ == board@.hop(self.player, from_position, from_position.plus(direction)),
    {
        let mut moves: Vec<Move> = Vec::new();

        let pos = from_position.step(direction);

        if Board::is_inside(pos) {
            if board.is_empty(pos) {
                moves.push(Move::Normal(NormalMove::new(from_position, pos)));
            } else {
                let piece = board.get(pos).unwrap();
                if piece.get_color() != self.player {
                    moves.push(Move::Normal(NormalMove::new(from_position, pos)));
                }
            }
        }
        assert(moves@ =~= board@.hop(self.player, from_position, from_position.plus(direction)));

        moves
    }

    /// The steps of this king from `from` onto the eight squares around
    /// it, as far as the board and the king's own pieces allow.
    pub open spec fn steps(self, board: BoardView, from: Position) -> Seq<Move> {
        board.hop(self.player, from, from.plus(Direction::north()))
            + board.hop(self.player, from, from.plus(Direction::north_west()))
            + board.hop(self.player, from, from.plus(Direction::west()))
            + board.hop(self.player, from, from.plus(Direction::south_west()))
            + board.hop(self.player, from, from.plus(Direction::south()))
            + board.hop(self.player, from, from.plus(Direction::south_east()))
            + board.hop(self.player, from, from.plus(Direction::east()))
            + board.hop(self.player, from, from.plus(Direction::north_east()))
    }

    /// Whether the first `squares` squares from `from` along `toward` lie
    /// on the board and are empty.
    pub open spec fn path_is_open(board: BoardView, from: Position, toward: Direction, squares: int) -> bool {
        forall|k: int|
            1 <= k <= squares ==> Board::is_inside(#[trigger] from.plus_times(toward, k))
                && board.is_empty(from.plus_times(toward, k))
    }

    /// Whether this king, standing on `from`, may castle with the piece in
    /// `corner`: neither has moved, the piece in the corner is a rook of
    /// the king's colour, the first `squares` squares toward it are empty,
    /// and the king would not stand in check after one step toward it.
    pub open spec fn can_castle(
        self,
        board: BoardView,
        from: Position,
        toward: Direction,
        corner: Position,
        squares: int,
    ) -> bool {
        &&& !self.has_moved
        &&& board.squares.contains_key(corner)
        &&& board.squares[corner].piece_type() == PieceType::Rook
        &&& board.squares[corner].color() == self.player
        &&& !board.squares[corner].has_moved()
        &&& Self::path_is_open(board, from, toward, squares)
        &&& !(NormalMove { from_pos: from, to_pos: from.plus(toward) }).apply(board).in_check(
            self.player,
        )
    }

    /// The castling move toward `corner`, two squares along `toward`, where
    /// the king may castle; else nothing.
    pub open spec fn castle(
        self,
        board: BoardView,
        from: Position,
        toward: Direction,
        corner: Position,
        squares: int,
    ) -> Seq<Move> {
        if self.can_castle(board, from, toward, corner, squares) {
            seq![Move::Castle(CastleMove { from_pos: from, to_pos: from.plus_times(toward, 2) })]
        } else {
            Seq::empty()
        }
    }

    /// The castling moves of this king from `from`: first toward column 0,
    /// past three squares, then toward column 7, past two. The rooks are
    /// looked for in the corners of the home row of the king's colour.
    pub open spec fn castles(self, board: BoardView, from: Position) -> Seq<Move> {
        let row = self.player.home_row();
        self.castle(board, from, Direction::west(), Position { column: 0, row }, 3) + self.castle(
            board,
            from,
            Direction::east(),
            Position { column: 7, row },
            2,
        )
    }

    /// The castling move toward `corner`, where this king may castle.
    fn castle_toward(
        &self,
        from_position: Position,
        board: &Board,
        toward: Direction,
        corner: Position,
        squares: i32,
    ) -> (moves: Vec<Move>)
        requires
            Board::is_inside(from_position),
            board@.piece_at(from_position) == Some(Piece::King(*self)),
            Board::is_inside(corner),
            toward == Direction::west() || toward == Direction::east(),
            1 <= squares <= 3,
        ensures
            moves@ == self.castle(board@, from_position, toward, corner, squares as int),
        decreases board@.unmoved_kings(), 2nat,
    {
        let mut moves: Vec<Move> = Vec::new();
        if self.has_moved {
            return moves;
        }
        let piece = board.get(corner);

        if let Some(piece) = piece {
            if piece.get_piece_type() == PieceType::Rook && piece.get_color() == self.player {
                if !piece.get_has_moved() {
                    let mut empty = true;
                    let mut pos = from_position;
                    let mut i: i32 = 0;
                    while i < squares
                        invariant_except_break
                            empty,
                        invariant
                            0 <= i <= squares <= 3,
                            Board::is_inside(from_position),
                            toward == Direction::west() || toward == Direction::east(),
                            empty ==> pos == from_position.plus_times(toward, i as int),
                            empty ==> Self::path_is_open(board@, from_position, toward, i as int),
                            !empty ==> !Self::path_is_open(
                                board@,
                                from_position,
                                toward,
                                squares as int,
                            ),
                        ensures
                            empty ==> i == squares,
                        decreases squares - i,
                    {
                        pos = pos.step(toward);
                        i += 1;
                        if !Board::is_inside(pos) || !board.is_empty(pos) {
                            empty = false;
                            assert(pos == from_position.plus_times(toward, i as int));
                            break ;
                        }
                    }

                    if empty {
                        let step = Move::Normal(
                            NormalMove::new(from_position, from_position.step(toward)),
                        );
                        proof {
                            assert(from_position.plus(toward) == from_position.plus_times(toward, 1));
                            lemma_king_step_lowers_count(
                                board@,
                                from_position,
                                from_position.plus(toward),
                            );
                        }
                        if !board.check_after(&step, self.player) {
                            moves.push(
                                Move::Castle(
                                    CastleMove::new(
                                        from_position,
                                        from_position + (toward * 2).into(),
                                    ),
                                ),
                            );
                        }
                    }
                }
            }
        }
        assert(moves@ =~= self.castle(board@, from_position, toward, corner, squares as int));

        moves
    }

    /// The moves of this piece, which stands on `from_position`.
    pub fn moves_from(&self, from_position: Position, board: &Board) -> (moves: Vec<Move>)
        requires
            Board::is_inside(from_position),
            board@.piece_at(from_position) == Some(Piece::King(*self)),
        ensures
            moves@ == board@.pseudo_legal_moves(from_position),
        decreases board@.unmoved_kings(), 3nat,
    {
        let mut moves: Vec<Move> = Vec::new();

        moves.append(&mut self.get_moves_in_direction(from_position, board, Direction::north()));
        moves.append(&mut self.get_moves_in_direction(from_position, board, Direction::north_west()));
        moves.append(&mut self.get_moves_in_direction(from_position, board, Direction::west()));
        moves.append(&mut self.get_moves_in_direction(from_position, board, Direction::south_west()));
        moves.append(&mut self.get_moves_in_direction(from_position, board, Direction::south()));
        moves.append(&mut self.get_moves_in_direction(from_position, board, Direction::south_east()));
        moves.append(&mut self.get_moves_in_direction(from_position, board, Direction::east()));
        moves.append(&mut self.get_moves_in_direction(from_position, board, Direction::north_east()));

        assert(moves@ =~= self.steps(board@, from_position));

        if !self.has_moved {
            let row = self.player.home_row();

            moves.append(
                &mut self.castle_toward(from_position, board, Direction::west(), Position::new(0, row), 3),
            );
            moves.append(
                &mut self.castle_toward(from_position, board, Direction::east(), Position::new(7, row), 2),
            );
        }
        assert(moves@ =~= self.steps(board@, from_position) + self.castles(board@, from_position));

        moves
    }
}

impl ChessPiece for King {
    open spec fn piece(&self) -> Piece {
        Piece::King(*self)
    }

    fn get_color(&self) -> (color: Player)
        ensures
            color == self.player,
    {
        self.player
    }

    fn get_piece_type(&self) -> (piece_type: PieceType)
        ensures
            piece_type == PieceType::King,
    {
        PieceType::King
    }

    fn get_moves(&self, from_position: Position, board: &Board) -> (moves: Vec<Move>)
        ensures
            moves@ == self.steps(board@, from_position) + self.castles(board@, from_position),
    {
        self.moves_from(from_position, board)
    }

    fn get_has_moved(&self) -> (has_moved: bool)
        ensures
            has_moved == self.has_moved,
    {
        self.has_moved
    }

    fn set_has_moved(&mut self)
        ensures
            final(self).has_moved,
            final(self).player == old(self).player,
    {
        self.has_moved = true
    }
}

} // verus!
