use vstd::prelude::*;
use crate::game::piece::bishop::Bishop;
use crate::game::piece::king::King;
use crate::game::piece::knight::Knight;
use crate::game::piece::pawn::Pawn;
use crate::game::piece::queen::Queen;
use crate::game::piece::rook::Rook;
use crate::game::direction::Direction;
use crate::game::distinct_ends::{distinct_ends, ends_within, open_to};
use crate::game::piece::{Piece, PieceType, Player};
use crate::game::piece_move::normal_move::NormalMove;
use crate::game::piece_move::Move;
use crate::game::position::Position;
use crate::game::proofs::{lemma_castling_takes_nothing, lemma_kept_of_none, lemma_kept_of_one_more};
use crate::game::theorems::{
    lemma_legal_moves_distinct, lemma_legal_moves_leave_no_check, lemma_moves_end_inside,
    lemma_moves_take_the_other_colour, lemma_offered_moves_can_apply, lemma_slide_is_whole_ray,
};

verus! {

/// What a board holds, as mathematics: the occupied squares with their
/// pieces, and the square that a pawn has just skipped, if any.
pub struct BoardView {
    pub squares: Map<Position, Piece>,
    pub en_passant: Option<Position>,
}

impl BoardView {
    pub open spec fn is_empty(self, position: Position) -> bool {
        !self.squares.contains_key(position)
    }

    pub open spec fn piece_at(self, position: Position) -> Option<Piece> {
        if self.squares.contains_key(position) {
            Some(self.squares[position])
        } else {
            None
        }
    }

    /// Whether `position` holds a piece of `color`.
    pub open spec fn holds_color(self, position: Position, color: Player) -> bool {
        self.squares.contains_key(position) && self.squares[position].color() == color
    }

    /// The board with `piece` put on `position`, or with the square cleared.
    pub open spec fn with_square(self, position: Position, piece: Option<Piece>) -> BoardView {
        BoardView {
            squares: match piece {
                Some(p) => self.squares.insert(position, p),
                None => self.squares.remove(position),
            },
            en_passant: self.en_passant,
        }
    }

    /// The board with the piece of `from` carried to `to` and marked as
    /// moved. What stood on `to` is gone.
    pub open spec fn relocate(self, from: Position, to: Position) -> BoardView {
        self.with_square(from, None).with_square(to, Some(self.squares[from].moved()))
    }

    pub open spec fn with_en_passant(self, target: Option<Position>) -> BoardView {
        BoardView { squares: self.squares, en_passant: target }
    }

    /// The moves of a piece of `color` that slides from `from` along
    /// `direction` and has come as far as `position`: one onto each empty
    /// square up to the edge of the board or the first piece, and one onto
    /// that piece if it is of the other colour.
    pub open spec fn ray(
        self,
        color: Player,
        from: Position,
        position: Position,
        direction: Direction,
    ) -> Seq<Move>
        decreases direction.room(position),
        when direction.is_heading()
    {
        let here = Move::Normal(NormalMove { from_pos: from, to_pos: position });
        if !Board::is_inside(position) {
            Seq::empty()
        } else if self.is_empty(position) {
            seq![here] + self.ray(color, from, position.plus(direction), direction)
        } else if self.squares[position].color() != color {
            seq![here]
        } else {
            Seq::empty()
        }
    }

    /// The moves of a piece of `color` that slides from `from` along
    /// `direction`.
    pub open spec fn slide(self, color: Player, from: Position, direction: Direction) -> Seq<Move> {
        self.ray(color, from, from.plus(direction), direction)
    }

    /// The one move of a piece of `color` from `from` straight to `to`, if
    /// `to` lies on the board and is empty or holds a piece of the other
    /// colour; else no move.
    pub open spec fn hop(self, color: Player, from: Position, to: Position) -> Seq<Move> {
        if Board::is_inside(to) && (self.is_empty(to) || self.squares[to].color() != color) {
            seq![Move::Normal(NormalMove { from_pos: from, to_pos: to })]
        } else {
            Seq::empty()
        }
    }

    /// The moves of the piece on `from` by which it could take a piece: all
    /// its moves but castling. Moves that would leave the mover's own king
    /// in check are among them.
    pub open spec fn attacking_moves(self, from: Position) -> Seq<Move> {
        match self.squares[from] {
            Piece::Pawn(p) => p.spec_moves(self, from),
            Piece::Knight(p) => p.spec_moves(self, from),
            Piece::Bishop(p) => p.spec_moves(self, from),
            Piece::Rook(p) => p.spec_moves(self, from),
            Piece::Queen(p) => p.spec_moves(self, from),
            Piece::King(p) => p.steps(self, from),
        }
    }

    /// The moves of the piece on `from`, castling included. Moves that
    /// would leave the mover's own king in check are among them.
    pub open spec fn pseudo_legal_moves(self, from: Position) -> Seq<Move> {
        match self.squares[from] {
            Piece::King(p) => p.steps(self, from) + p.castles(self, from),
            _ => self.attacking_moves(from),
        }
    }

    /// Whether the king of `player` stands on `position`.
    pub open spec fn is_king_of(self, position: Position, player: Player) -> bool {
        &&& self.squares.contains_key(position)
        &&& self.squares[position].piece_type() == PieceType::King
        &&& self.squares[position].color() == player
    }

    /// Whether one of `moves` ends on the king of `player`.
    pub open spec fn reaches_king(self, moves: Seq<Move>, player: Player) -> bool {
        exists|i: int| 0 <= i < moves.len() && self.is_king_of(#[trigger] moves[i].to_pos(), player)
    }

    /// Whether the piece on `from` is an opponent of `player` and one of
    /// its moves ends on the king of `player`.
    pub open spec fn threatens(self, from: Position, player: Player) -> bool {
        &&& self.squares.contains_key(from)
        &&& self.squares[from].color() != player
        &&& self.reaches_king(self.attacking_moves(from), player)
    }

    /// Whether `player` is in check: whether some piece of the opponent has
    /// a move that ends on the king of `player`.
    pub open spec fn in_check(self, player: Player) -> bool {
        exists|from: Position| Board::is_inside(from) && #[trigger] self.threatens(from, player)
    }

    /// Whether every king that has not moved stands on the home row of its
    /// colour, as it does in any position that play has reached.
    pub open spec fn kings_at_home(self) -> bool {
        forall|p: Position|
            self.squares.contains_key(p) && (#[trigger] self.squares[p]).is_unmoved_king()
                ==> p.row == self.squares[p].color().home_row()
    }

    /// Whether `piece_move` leaves `player` out of check.
    pub open spec fn is_legal(self, piece_move: Move, player: Player) -> bool {
        !piece_move.apply(self).in_check(player)
    }

    /// The legal moves of the piece on `from`: those of its moves that do
    /// not leave the king of its own colour in check.
    pub open spec fn legal_moves(self, from: Position) -> Seq<Move> {
        self.pseudo_legal_moves(from).filter(
            |piece_move: Move| self.is_legal(piece_move, self.squares[from].color()),
        )
    }

    /// Whether `player` has a legal move.
    pub open spec fn can_move(self, player: Player) -> bool {
        exists|from: Position|
            Board::is_inside(from) && self.holds_color(from, player) && (
            #[trigger] self.legal_moves(from)).len() > 0
    }

    /// Whether `position` holds a piece that `wanted` accepts.
    pub open spec fn has_wanted(self, wanted: spec_fn(Piece) -> bool, position: Position) -> bool {
        self.squares.contains_key(position) && wanted(self.squares[position])
    }

    /// How many of the first `limit` squares, taken column by column, hold a
    /// piece that `wanted` accepts.
    pub open spec fn count_below(self, wanted: spec_fn(Piece) -> bool, limit: nat) -> nat
        decreases limit,
    {
        if limit == 0 {
            0
        } else {
            self.count_below(wanted, (limit - 1) as nat) + if self.has_wanted(
                wanted,
                Board::square((limit - 1) as int),
            ) {
                1nat
            } else {
                0nat
            }
        }
    }

    /// How many squares of the board hold a piece that `wanted` accepts.
    pub open spec fn count(self, wanted: spec_fn(Piece) -> bool) -> nat {
        self.count_below(wanted, 64)
    }

    /// How many pieces stand on the board.
    pub open spec fn total_pieces(self) -> nat {
        self.count(Piece::any())
    }

    /// How many pieces of the kind `piece_type` `player` has on the board.
    pub open spec fn pieces_of(self, player: Player, piece_type: PieceType) -> nat {
        self.count(Piece::of_kind(player, piece_type))
    }

    /// Whether `position` is the first square, searching column by column,
    /// that holds a piece of `player` and of the kind `piece_type`.
    pub open spec fn is_first(self, position: Position, player: Player, piece_type: PieceType) -> bool {
        &&& self.holds(position, player, piece_type)
        &&& forall|p: Position|
            Self::comes_before(p, position) ==> !#[trigger] self.holds(p, player, piece_type)
    }

    /// Whether the first white bishop and the first black bishop stand on
    /// squares of different colours.
    pub open spec fn bishops_on_unlike_squares(self) -> bool {
        exists|white: Position, black: Position|
            #![trigger self.is_first(white, Player::White, PieceType::Bishop), self.is_first(black, Player::Black, PieceType::Bishop)]
            self.is_first(white, Player::White, PieceType::Bishop) && self.is_first(
                black,
                Player::Black,
                PieceType::Bishop,
            ) && (white.column + white.row + black.column + black.row) % 2 != 0
    }

    /// Two pieces in all.
    pub open spec fn is_king_v_king(self) -> bool {
        self.total_pieces() == 2
    }

    /// Three pieces in all, a knight among them.
    pub open spec fn is_king_v_king_knight(self) -> bool {
        self.total_pieces() == 3 && (self.pieces_of(Player::White, PieceType::Knight) > 0
            || self.pieces_of(Player::Black, PieceType::Knight) > 0)
    }

    /// Three pieces in all, a bishop among them.
    pub open spec fn is_king_v_king_bishop(self) -> bool {
        self.total_pieces() == 3 && (self.pieces_of(Player::White, PieceType::Bishop) > 0
            || self.pieces_of(Player::Black, PieceType::Bishop) > 0)
    }

    /// Four pieces in all, a bishop on either side, and the two bishops on
    /// squares of different colours.
    pub open spec fn is_king_bishop_v_king_bishop(self) -> bool {
        &&& self.total_pieces() == 4
        &&& self.pieces_of(Player::White, PieceType::Bishop) > 0
        &&& self.pieces_of(Player::Black, PieceType::Bishop) > 0
        &&& self.bishops_on_unlike_squares()
    }

    /// Whether too little is left on the board for the game to go on. Only
    /// the numbers of pieces are looked at, and the squares of the bishops.
    pub open spec fn insufficient_material(self) -> bool {
        self.is_king_v_king() || self.is_king_v_king_knight() || self.is_king_v_king_bishop()
            || self.is_king_bishop_v_king_bishop()
    }

    /// How many kings on the board have not moved.
    pub open spec fn unmoved_kings(self) -> nat {
        self.count(|piece: Piece| piece.is_unmoved_king())
    }

    /// Whether `position` holds a piece of `player` and of the kind
    /// `piece_type`.
    pub open spec fn holds(self, position: Position, player: Player, piece_type: PieceType) -> bool {
        &&& self.squares.contains_key(position)
        &&& self.squares[position].piece_type() == piece_type
        &&& self.squares[position].color() == player
    }

    /// Whether `moves` is the whole ray of a piece of `color` that slides
    /// from `from` along `direction` and has come as far as `start`:
    /// ordinary moves from `from` onto `start` and then onto one square
    /// after another along the direction, each on the board, all but the
    /// last onto empty squares, the last onto an empty square or a piece of
    /// the other colour; and it goes on until it takes a piece, or the next
    /// square lies off the board or holds a piece of `color`.
    pub open spec fn is_whole_ray_from(
        self,
        moves: Seq<Move>,
        color: Player,
        from: Position,
        start: Position,
        direction: Direction,
    ) -> bool {
        let n = moves.len() as int;
        let beyond = if n == 0 {
            start
        } else {
            moves[n - 1].to_pos().plus(direction)
        };
        &&& forall|i: int|
            0 <= i < n ==> (#[trigger] moves[i]) is Normal && moves[i].from_pos() == from
                && Board::is_inside(moves[i].to_pos())
        &&& n > 0 ==> moves[0].to_pos() == start
        &&& forall|i: int|
            0 <= i < n - 1 ==> (#[trigger] moves[i + 1]).to_pos() == moves[i].to_pos().plus(direction)
        &&& forall|i: int| 0 <= i < n - 1 ==> self.is_empty((#[trigger] moves[i]).to_pos())
        &&& n > 0 ==> self.is_empty(moves[n - 1].to_pos()) || !self.holds_color(
            moves[n - 1].to_pos(),
            color,
        )
        &&& (n > 0 && !self.is_empty(moves[n - 1].to_pos())) || !Board::is_inside(beyond)
            || self.holds_color(beyond, color)
    }

    /// Whether `moves` is the whole ray of a piece of `color` from `from`
    /// along `direction`, which starts one step from `from`.
    pub open spec fn is_whole_ray(
        self,
        moves: Seq<Move>,
        color: Player,
        from: Position,
        direction: Direction,
    ) -> bool {
        self.is_whole_ray_from(moves, color, from, from.plus(direction), direction)
    }

    /// The piece with which a game starts on `position`, if any: the back
    /// ranks on rows 0 (black) and 7 (white), the pawns on rows 1 and 6.
    pub open spec fn starting_piece(position: Position) -> Option<Piece> {
        let color = if position.row <= 1 {
            Player::Black
        } else {
            Player::White
        };
        if !Board::is_inside(position) {
            None
        } else if position.row == 1 || position.row == 6 {
            Some(Piece::Pawn(Pawn { player: color, has_moved: false }))
        } else if position.row == 0 || position.row == 7 {
            if position.column == 0 || position.column == 7 {
                Some(Piece::Rook(Rook { player: color, has_moved: false }))
            } else if position.column == 1 || position.column == 6 {
                Some(Piece::Knight(Knight { player: color }))
            } else if position.column == 2 || position.column == 5 {
                Some(Piece::Bishop(Bishop { player: color }))
            } else if position.column == 3 {
                Some(Piece::Queen(Queen { player: color }))
            } else {
                Some(Piece::King(King { player: color, has_moved: false }))
            }
        } else {
            None
        }
    }

    /// The board at the start of a game.
    pub open spec fn starting() -> BoardView {
        BoardView {
            squares: Map::new(
                |p: Position| Self::starting_piece(p) is Some,
                |p: Position| Self::starting_piece(p).unwrap(),
            ),
            en_passant: None,
        }
    }

    /// A small board for trials: the black king on (0, 0), the white king
    /// on (7, 7), a white knight on (1, 0) and a black knight on (5, 1).
    pub open spec fn trial() -> BoardView {
        BoardView {
            squares: Map::<Position, Piece>::empty().insert(
                Position { column: 0, row: 0 },
                Piece::King(King { player: Player::Black, has_moved: false }),
            ).insert(
                Position { column: 7, row: 7 },
                Piece::King(King { player: Player::White, has_moved: false }),
            ).insert(
                Position { column: 1, row: 0 },
                Piece::Knight(Knight { player: Player::White }),
            ).insert(Position { column: 5, row: 1 }, Piece::Knight(Knight { player: Player::Black })),
            en_passant: None,
        }
    }

    /// The letter that stands for what a square holds: `e` for an empty
    /// square, else the first letter of the piece's name (`n` for the
    /// knight), in upper case for white and in lower case for black.
    pub open spec fn letter(piece: Option<Piece>) -> char {
        match piece {
            None => 'e',
            Some(p) => match (p.piece_type(), p.color()) {
                (PieceType::Pawn, Player::White) => 'P',
                (PieceType::Knight, Player::White) => 'N',
                (PieceType::Bishop, Player::White) => 'B',
                (PieceType::Rook, Player::White) => 'R',
                (PieceType::Queen, Player::White) => 'Q',
                (PieceType::King, Player::White) => 'K',
                (PieceType::Pawn, Player::Black) => 'p',
                (PieceType::Knight, Player::Black) => 'n',
                (PieceType::Bishop, Player::Black) => 'b',
                (PieceType::Rook, Player::Black) => 'r',
                (PieceType::Queen, Player::Black) => 'q',
                (PieceType::King, Player::Black) => 'k',
            },
        }
    }

    /// Whether castling is still open between a king on `king_square` and
    /// a rook on `rook_square`: whether a king and a rook stand there and
    /// neither has moved.
    pub open spec fn may_still_castle(self, king_square: Position, rook_square: Position) -> bool {
        &&& self.squares.contains_key(king_square)
        &&& self.squares[king_square].piece_type() == PieceType::King
        &&& !self.squares[king_square].has_moved()
        &&& self.squares.contains_key(rook_square)
        &&& self.squares[rook_square].piece_type() == PieceType::Rook
        &&& !self.squares[rook_square].has_moved()
    }

    /// `mark` where castling is still open between the two squares, else
    /// `e`.
    pub open spec fn castling_mark(self, king_square: Position, rook_square: Position, mark: char) -> char {
        if self.may_still_castle(king_square, rook_square) {
            mark
        } else {
            'e'
        }
    }

    /// The letters of the 64 squares, column by column.
    pub open spec fn letters(self) -> Seq<char> {
        Seq::new(64, |i: int| Self::letter(self.piece_at(Board::square(i))))
    }

    /// The four marks of the castling that is still open: `K` and `Q` for
    /// white toward columns 7 and 0, `k` and `q` for black.
    pub open spec fn castling_marks(self) -> Seq<char> {
        seq![
            self.castling_mark(Position { column: 4, row: 7 }, Position { column: 7, row: 7 }, 'K'),
            self.castling_mark(Position { column: 4, row: 7 }, Position { column: 0, row: 7 }, 'Q'),
            self.castling_mark(Position { column: 4, row: 0 }, Position { column: 7, row: 0 }, 'k'),
            self.castling_mark(Position { column: 4, row: 0 }, Position { column: 0, row: 0 }, 'q'),
        ]
    }

    /// The fingerprint by which a position is known again: the letters of
    /// the squares, then the castling marks. The side to move and the
    /// square that can be taken en passant are not part of it.
    pub open spec fn fingerprint(self) -> Seq<char> {
        self.letters() + self.castling_marks()
    }

    /// Whether `first` comes before `second` where the board is searched
    /// column by column, and within a column row by row.
    pub open spec fn comes_before(first: Position, second: Position) -> bool {
        first.column < second.column || (first.column == second.column && first.row < second.row)
    }

    /// Whether every occupied square lies on the board, as it does in what
    /// a `Board` holds.
    pub open spec fn on_board(self) -> bool {
        forall|p: Position| self.squares.contains_key(p) ==> Board::is_inside(p)
    }
}

/// The 8 by 8 grid, indexed by column and then row, and the square that can
/// be taken en passant by the next move.
#[derive(Clone, Copy, PartialEq, Eq, Debug)]
pub struct Board {
    pub state: [[Option<Piece>; 8]; 8],
    pub en_passant: Option<Position>,
}

impl View for Board {
    type V = BoardView;

    open spec fn view(&self) -> BoardView {
        BoardView {
            squares: Map::new(
                |p: Position| Board::is_inside(p) && self.state[p.column as int][p.row as int] is Some,
                |p: Position| self.state[p.column as int][p.row as int].unwrap(),
            ),
            en_passant: self.en_passant,
        }
    }
}

impl Default for Board {
    /// A board with no piece on it.
    fn default() -> (board: Self)
        ensures
            board@.squares == Map::<Position, Piece>::empty(),
            board@.en_passant.is_none(),
    {
        Self::cleared()
    }
}

impl Board {
    /// The square with the given number, counted column by column from
    /// column 0, and within a column from row 0.
    pub open spec fn square(index: int) -> Position {
        Position { column: (index / 8) as i32, row: (index % 8) as i32 }
    }

    pub open spec fn spec_is_inside(position: Position) -> bool {
        0 <= position.column < 8 && 0 <= position.row < 8
    }

    #[verifier::when_used_as_spec(spec_is_inside)]
    pub fn is_inside(position: Position) -> (inside: bool)
        ensures
            inside == Self::spec_is_inside(position),
    {
        position.column >= 0 && position.column < 8 && position.row >= 0 && position.row < 8
    }

    /// What stands on `position` while the board is set up, once the back
    /// ranks stand and the pawns of the first `pawns` columns.
    spec fn while_set_up(position: Position, pawns: int) -> Option<Piece> {
        if position.row == 0 || position.row == 7 || ((position.row == 1 || position.row == 6)
            && position.column < pawns) {
            BoardView::starting_piece(position)
        } else {
            None
        }
    }

    /// The board at the start of a game.
    pub fn new() -> (board: Self)
        ensures
            board@ == BoardView::starting(),
    {
        let mut board: Board = Self::default();

        board.en_passant = None;

        board.set(Position::new(0, 0), Some(Piece::Rook(Rook::new(Player::Black))));
        board.set(Position::new(1, 0), Some(Piece::Knight(Knight::new(Player::Black))));
        board.set(Position::new(2, 0), Some(Piece::Bishop(Bishop::new(Player::Black))));
        board.set(Position::new(3, 0), Some(Piece::Queen(Queen::new(Player::Black))));
        board.set(Position::new(4, 0), Some(Piece::King(King::new(Player::Black))));
        board.set(Position::new(5, 0), Some(Piece::Bishop(Bishop::new(Player::Black))));
        board.set(Position::new(6, 0), Some(Piece::Knight(Knight::new(Player::Black))));
        board.set(Position::new(7, 0), Some(Piece::Rook(Rook::new(Player::Black))));

        board.set(Position::new(0, 7), Some(Piece::Rook(Rook::new(Player::White))));
        board.set(Position::new(1, 7), Some(Piece::Knight(Knight::new(Player::White))));
        board.set(Position::new(2, 7), Some(Piece::Bishop(Bishop::new(Player::White))));
        board.set(Position::new(3, 7), Some(Piece::Queen(Queen::new(Player::White))));
        board.set(Position::new(4, 7), Some(Piece::King(King::new(Player::White))));
        board.set(Position::new(5, 7), Some(Piece::Bishop(Bishop::new(Player::White))));
        board.set(Position::new(6, 7), Some(Piece::Knight(Knight::new(Player::White))));
        board.set(Position::new(7, 7), Some(Piece::Rook(Rook::new(Player::White))));

        let mut i: i32 = 0;
        while i < 8
            invariant
                0 <= i <= 8,
                board@.en_passant.is_none(),
                forall|p: Position|
                    #[trigger] board@.piece_at(p) == Self::while_set_up(p, i as int),
            decreases 8 - i,
        {
            let ghost before = board@;
            board.set(Position::new(i, 1), Some(Piece::Pawn(Pawn::new(Player::Black))));
            board.set(Position::new(i, 6), Some(Piece::Pawn(Pawn::new(Player::White))));
            proof {
                let black = Position { column: i, row: 1 };
                let white = Position { column: i, row: 6 };
                assert forall|p: Position| p != black && p != white implies #[trigger] board@.piece_at(p)
                    == before.piece_at(p) by {}
                assert forall|p: Position| #[trigger]
                    board@.piece_at(p) == Self::while_set_up(p, i + 1) by {
                    assert(before.piece_at(p) == Self::while_set_up(p, i as int));
                    if p != black && p != white {
                        assert(board@.piece_at(p) == before.piece_at(p));
                    }
                }
            }
            i += 1;
        }
        proof {
            assert forall|p: Position|
                board@.squares.contains_key(p) == BoardView::starting().squares.contains_key(
                    p,
                ) by {
                assert(board@.piece_at(p) == BoardView::starting_piece(p));
            }
            assert forall|p: Position| board@.squares.contains_key(p) implies board@.squares[p]
                == BoardView::starting().squares[p] by {
                assert(board@.piece_at(p) == BoardView::starting_piece(p));
            }
            assert(board@.squares =~= BoardView::starting().squares);
        }

        board
    }

    /// A small board for trials.
    pub fn test_board() -> (board: Self)
        ensures
            board@ == BoardView::trial(),
    {
        let mut board: Board = Self::default();

        board.en_passant = None;

        board.set(Position::new(0, 0), Some(Piece::King(King::new(Player::Black))));
        board.set(Position::new(7, 7), Some(Piece::King(King::new(Player::White))));
        board.set(Position::new(1, 0), Some(Piece::Knight(Knight::new(Player::White))));
        board.set(Position::new(5, 1), Some(Piece::Knight(Knight::new(Player::Black))));

        assert(board@.squares =~= BoardView::trial().squares);
        board
    }

    fn cleared() -> (board: Self)
        ensures
            board@.squares == Map::<Position, Piece>::empty(),
            board@.en_passant.is_none(),
    {
        let row: [Option<Piece>; 8] = [None, None, None, None, None, None, None, None];
        let state: [[Option<Piece>; 8]; 8] = [row, row, row, row, row, row, row, row];
        let board = Board { state, en_passant: None };
        assert(board@.squares =~= Map::<Position, Piece>::empty());
        board
    }

    /// The piece on `position`, if there is one.
    pub fn get(&self, position: Position) -> (piece: Option<Piece>)
        requires
            Self::is_inside(position),
        ensures
            piece == self@.piece_at(position),
    {
        self.state[position.column as usize][position.row as usize]
    }

    /// Puts `piece` on `position`, or clears the square.
    pub fn set(&mut self, position: Position, piece: Option<Piece>)
        requires
            Self::is_inside(position),
        ensures
            final(self)@ == old(self)@.with_square(position, piece),
    {
        self.state[position.column as usize][position.row as usize] = piece;
        assert(self@.squares =~= old(self)@.with_square(position, piece).squares);
    }

    /// Adds to `moves` the move of a piece of `color` from `from_position`
    /// straight to `to_position`, if that square lies on the board and is
    /// empty or holds a piece of the other colour.
    pub fn push_hop(
        &self,
        moves: &mut Vec<Move>,
        color: Player,
        from_position: Position,
        to_position: Position,
    )
        ensures
            final(moves)@ == old(moves)@ + self@.hop(color, from_position, to_position),
    {
        if Board::is_inside(to_position) {
            let target = self.get(to_position);
            let free = match target {
                Some(piece) => piece.get_color() != color,
                None => true,
            };
            if free {
                moves.push(Move::Normal(NormalMove::new(from_position, to_position)));
            }
        }
        assert(moves@ =~= old(moves)@ + self@.hop(color, from_position, to_position));
    }

    /// The moves of a piece of `color` that slides from `from_position`
    /// along `direction`.
    pub fn slide_moves(&self, color: Player, from_position: Position, direction: Direction) -> (moves:
        Vec<Move>)
        requires
            direction.is_heading(),
            from_position.can_step(direction),
        ensures
            moves@ == self@.slide(color, from_position, direction),
            self@.is_whole_ray(moves@, color, from_position, direction),
    {
        let mut moves: Vec<Move> = Vec::new();

        let mut pos = from_position.step(direction);

        while Board::is_inside(pos)
            invariant_except_break
                moves@ + self@.ray(color, from_position, pos, direction) == self@.slide(
                    color,
                    from_position,
                    direction,
                ),
            invariant
                direction.is_heading(),
            ensures
                moves@ == self@.slide(color, from_position, direction),
            decreases direction.room(pos),
        {
            let ghost before = moves@;
            let ghost rest = self@.ray(color, from_position, pos.plus(direction), direction);
            if self.is_empty(pos) {
                moves.push(Move::Normal(NormalMove::new(from_position, pos)));
                pos = pos.step(direction);
                assert(moves@ + rest =~= before + (seq![moves@.last()] + rest));
                continue ;
            }
            let piece = self.get(pos).unwrap();
            if piece.get_color() != color {
                moves.push(Move::Normal(NormalMove::new(from_position, pos)));
            }
            assert(moves@ =~= before + self@.ray(color, from_position, pos, direction));

            break ;
        }
        proof {
            assert(moves@ + Seq::<Move>::empty() =~= moves@);
            lemma_slide_is_whole_ray(self@, color, from_position, direction);
        }

        moves
    }

    /// Whether `player` would be in check after `piece_move`. The board
    /// itself stays as it is: the move is tried on a copy.
    pub fn check_after(&self, piece_move: &Move, player: Player) -> (check: bool)
        requires
            piece_move.can_apply(self@),
        ensures
            check == piece_move.apply(self@).in_check(player),
        decreases piece_move.apply(self@).unmoved_kings(), 6nat,
    {
        let mut test_board = *self;

        piece_move.execute(&mut test_board);

        test_board.get_check(player)
    }

    /// The legal moves of the piece on `position`: those of its moves
    /// that do not leave the king of its own colour in check.
    pub fn get_legal_moves(&self, position: Position) -> (moves: Vec<Move>)
        requires
            Self::is_inside(position),
            !self@.is_empty(position),
            self@.kings_at_home(),
        ensures
            moves@ == self@.legal_moves(position),
            forall|i: int| 0 <= i < moves@.len() ==> (#[trigger] moves@[i]).can_apply(self@),
            forall|i: int|
                0 <= i < moves@.len() ==> !(#[trigger] moves@[i]).apply(self@).in_check(
                    self@.squares[position].color(),
                ),
            distinct_ends(moves@),
    {
        let piece = self.get(position).unwrap();
        let player = piece.get_color();
        let piece_moves = piece.get_moves(position, self);
        let mut moves: Vec<Move> = Vec::new();
        let ghost legal = |piece_move: Move| self@.is_legal(piece_move, player);
        proof {
            lemma_offered_moves_can_apply(self@, position);
            lemma_kept_of_none(piece_moves@, legal);
        }
        let mut i: usize = 0;
        while i < piece_moves.len()
            invariant
                0 <= i <= piece_moves@.len(),
                forall|k: int| 0 <= k < piece_moves@.len() ==> (#[trigger] piece_moves@[k]).can_apply(self@),
                legal == |piece_move: Move| self@.is_legal(piece_move, player),
                moves@ == piece_moves@.take(i as int).filter(legal),
                forall|k: int| 0 <= k < moves@.len() ==> (#[trigger] moves@[k]).can_apply(self@),
            decreases piece_moves@.len() - i,
        {
            let piece_move = piece_moves[i];
            let keeps = !self.check_after(&piece_move, player);
            if keeps {
                moves.push(piece_move);
            }
            proof {
                lemma_kept_of_one_more(piece_moves@, legal, i as int);
            }
            i += 1;
        }
        proof {
            assert(piece_moves@.take(piece_moves@.len() as int) =~= piece_moves@);
            lemma_legal_moves_distinct(self@, position);
            assert forall|i: int| 0 <= i < moves@.len() implies !(#[trigger] moves@[i]).apply(
                self@,
            ).in_check(player) by {
                lemma_legal_moves_leave_no_check(self@, position, i);
            }
        }
        moves
    }

    /// Whether one of `moves` ends on a king, where they are moves of an
    /// opponent of `player`, none of which ends on a piece of its own
    /// colour.
    fn any_reaches_king(&self, moves: &Vec<Move>, player: Player) -> (reached: bool)
        requires
            forall|i: int| 0 <= i < moves@.len() ==> Board::is_inside(#[trigger] moves@[i].to_pos()),
            ends_within(moves@, open_to(self@, player.opponent())),
        ensures
            reached == self@.reaches_king(moves@, player),
    {
        let mut i: usize = 0;
        while i < moves.len()
            invariant
                0 <= i <= moves@.len(),
                forall|k: int| 0 <= k < moves@.len() ==> Board::is_inside(#[trigger] moves@[k].to_pos()),
                ends_within(moves@, open_to(self@, player.opponent())),
                forall|k: int| 0 <= k < i ==> !self@.is_king_of(#[trigger] moves@[k].to_pos(), player),
            decreases moves@.len() - i,
        {
            if let Some(piece) = self.get(moves[i].get_to_pos()) {
                if piece.get_piece_type() == PieceType::King {
                    assert(open_to(self@, player.opponent())(moves@[i as int].to_pos()));
                    return true;
                }
            }
            i += 1;
        }
        false
    }

    /// Whether `player` is in check.
    pub fn get_check(&self, player: Player) -> (check: bool)
        ensures
            check == self@.in_check(player),
        decreases self@.unmoved_kings(), 5nat,
    {
        let mut col: i32 = 0;
        while col < 8
            invariant
                0 <= col <= 8,
                forall|p: Position|
                    Board::is_inside(p) && p.column < col ==> !#[trigger] self@.threatens(p, player),
            decreases 8 - col,
        {
            let mut row: i32 = 0;
            while row < 8
                invariant
                    0 <= col < 8,
                    0 <= row <= 8,
                    forall|p: Position|
                        Board::is_inside(p) && (p.column < col || (p.column == col && p.row < row))
                            ==> !#[trigger] self@.threatens(p, player),
                decreases 8 - row,
            {
                let pos = Position::new(col, row);
                if let Some(piece) = self.get(pos) {
                    if piece.get_color() != player {
                        let moves = piece.get_moves(pos, self);
                        proof {
                            lemma_moves_end_inside(self@, pos);
                            lemma_moves_take_the_other_colour(self@, pos);
                            lemma_castling_takes_nothing(self@, pos, player);
                        }
                        if self.any_reaches_king(&moves, player) {
                            assert(self@.threatens(pos, player));
                            return true;
                        }
                    }
                }
                row += 1;
            }
            col += 1;
        }
        false
    }

    /// The first square, searching column by column, that holds a piece
    /// of `player` and of the kind `piece_type`. There must be one.
    pub fn find_piece(&self, player: Player, piece_type: PieceType) -> (position: Position)
        requires
            exists|p: Position| self@.holds(p, player, piece_type),
        ensures
            Self::is_inside(position),
            self@.holds(position, player, piece_type),
            forall|p: Position|
                BoardView::comes_before(p, position) ==> !self@.holds(p, player, piece_type),
    {
        let mut x: i32 = 0;
        let mut y: i32 = 0;
        loop
            invariant
                0 <= x < 8,
                0 <= y < 8,
                exists|p: Position| self@.holds(p, player, piece_type),
                forall|p: Position|
                    BoardView::comes_before(p, Position { column: x, row: y }) ==> !self@.holds(
                        p,
                        player,
                        piece_type,
                    ),
            decreases 64 - (x * 8 + y),
        {
            let here = Position::new(x, y);
            if let Some(chess_piece) = self.get(here) {
                if chess_piece.get_piece_type() == piece_type && chess_piece.get_color() == player {
                    return here;
                }
            }
            proof {
                let found = choose|p: Position| self@.holds(p, player, piece_type);
                assert(Self::is_inside(found));
                assert(found != here);
                assert(!BoardView::comes_before(found, here));
                assert forall|p: Position| self@.holds(p, player, piece_type) implies Self::is_inside(
                    p,
                ) && p != here && !BoardView::comes_before(p, here) by {}
            }
            if y < 7 {
                y += 1;
            } else {
                x += 1;
                y = 0;
            }
        }
    }

    /// The letter that stands for what a square holds.
    fn letter_of(piece: Option<Piece>) -> (letter: &'static str)
        ensures
            letter@ == seq![BoardView::letter(piece)],
    {
        proof {
            reveal_strlit("e");
            reveal_strlit("P");
            reveal_strlit("N");
            reveal_strlit("B");
            reveal_strlit("R");
            reveal_strlit("Q");
            reveal_strlit("K");
            reveal_strlit("p");
            reveal_strlit("n");
            reveal_strlit("b");
            reveal_strlit("r");
            reveal_strlit("q");
            reveal_strlit("k");
        }
        let letter = match piece {
            None => "e",
            Some(new_piece) => {
                let white = new_piece.get_color() == Player::White;
                match new_piece.get_piece_type() {
                    PieceType::Pawn => if white { "P" } else { "p" },
                    PieceType::Knight => if white { "N" } else { "n" },
                    PieceType::Bishop => if white { "B" } else { "b" },
                    PieceType::Rook => if white { "R" } else { "r" },
                    PieceType::Queen => if white { "Q" } else { "q" },
                    PieceType::King => if white { "K" } else { "k" },
                }
            },
        };
        assert(letter@ =~= seq![BoardView::letter(piece)]);
        letter
    }

    /// Whether a king on `king_square` and a rook on `rook_square` have
    /// both not moved.
    fn castling_open(&self, king_square: Position, rook_square: Position) -> (open: bool)
        requires
            Self::is_inside(king_square),
            Self::is_inside(rook_square),
        ensures
            open == self@.may_still_castle(king_square, rook_square),
    {
        if let Some(piece) = self.get(king_square) {
            if piece.get_piece_type() == PieceType::King && !piece.get_has_moved() {
                if let Some(rook) = self.get(rook_square) {
                    if rook.get_piece_type() == PieceType::Rook && !rook.get_has_moved() {
                        return true;
                    }
                }
            }
        }
        false
    }

    /// The fingerprint of the position, by which a repetition is known.
    pub fn get_snapshot(&self) -> (snapshot: String)
        ensures
            snapshot@ == self@.fingerprint(),
    {
        let mut snapshot = String::new();
        let mut column: i32 = 0;
        while column < 8
            invariant
                0 <= column <= 8,
                snapshot@ == self@.letters().take(column * 8),
            decreases 8 - column,
        {
            let mut row: i32 = 0;
            while row < 8
                invariant
                    0 <= column < 8,
                    0 <= row <= 8,
                    snapshot@ == self@.letters().take(column * 8 + row),
                decreases 8 - row,
            {
                let ghost before = snapshot@;
                let letter = Self::letter_of(self.get(Position::new(column, row)));
                snapshot.append(letter);
                proof {
                    let index = column * 8 + row;
                    assert(Board::square(index) == Position { column, row });
                    assert(snapshot@ =~= self@.letters().take(index + 1));
                }
                row += 1;
            }
            column += 1;
        }
        proof {
            reveal_strlit("e");
            reveal_strlit("K");
            reveal_strlit("Q");
            reveal_strlit("k");
            reveal_strlit("q");
            assert(self@.letters().take(64) =~= self@.letters());
        }
        let ghost squares = snapshot@;

        snapshot.append(
            if self.castling_open(Position::new(4, 7), Position::new(7, 7)) {
                "K"
            } else {
                "e"
            },
        );
        snapshot.append(
            if self.castling_open(Position::new(4, 7), Position::new(0, 7)) {
                "Q"
            } else {
                "e"
            },
        );
        snapshot.append(
            if self.castling_open(Position::new(4, 0), Position::new(7, 0)) {
                "k"
            } else {
                "e"
            },
        );
        snapshot.append(
            if self.castling_open(Position::new(4, 0), Position::new(0, 0)) {
                "q"
            } else {
                "e"
            },
        );
        assert(snapshot@ =~= self@.fingerprint());

        snapshot
    }

    pub fn is_empty(&self, position: Position) -> (empty: bool)
        requires
            Self::is_inside(position),
        ensures
            empty == self@.is_empty(position),
    {
        self.state[position.column as usize][position.row as usize].is_none()
    }
}

} // verus!
