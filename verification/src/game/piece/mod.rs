use vstd::prelude::*;
use crate::game::board::Board;
use crate::game::direction::Direction;
use crate::game::piece::bishop::Bishop;
use crate::game::piece::king::King;
use crate::game::piece::knight::Knight;
use crate::game::piece::pawn::Pawn;
use crate::game::piece::queen::Queen;
use crate::game::piece::rook::Rook;
use crate::game::piece_move::Move;
use crate::game::position::Position;

pub mod bishop;
pub mod king;
pub mod knight;
pub mod pawn;
pub mod queen;
pub mod rook;

verus! {

#[derive(Clone, Copy, PartialEq, Eq, Structural, Hash, Debug)]
pub enum PieceType {
    Pawn,
    Knight,
    Bishop,
    Rook,
    Queen,
    King,
}

#[derive(Clone, Copy, PartialEq, Eq, Structural, Debug)]
pub enum Player {
    White,
    Black,
}

impl Player {
    pub open spec fn opponent(&self) -> Player {
        match self {
            Player::White => Player::Black,
            Player::Black => Player::White,
        }
    }

    #[verifier::when_used_as_spec(opponent)]
    pub fn get_opponent(&self) -> (other: Self)
        ensures
            other == self.opponent(),
    {
        if *self == Self::White {
            return Self::Black;
        }
        Self::White
    }

    /// The way this player's pawns advance: north for white, south for
    /// black.
    pub open spec fn spec_forward(&self) -> Direction {
        match self {
            Player::White => Direction::north(),
            Player::Black => Direction::south(),
        }
    }

    #[verifier::when_used_as_spec(spec_forward)]
    pub fn forward(&self) -> (direction: Direction)
        ensures
            direction == self.spec_forward(),
    {
        match self {
            Player::White => Direction::north(),
            Player::Black => Direction::south(),
        }
    }

    /// The way back for this player's pawns.
    pub open spec fn spec_backward(&self) -> Direction {
        match self {
            Player::White => Direction::south(),
            Player::Black => Direction::north(),
        }
    }

    #[verifier::when_used_as_spec(spec_backward)]
    pub fn backward(&self) -> (direction: Direction)
        ensures
            direction == self.spec_backward(),
    {
        match self {
            Player::White => Direction::south(),
            Player::Black => Direction::north(),
        }
    }

    /// The row on which this player's pieces start the game: 7 for white, 0
    /// for black.
    pub open spec fn spec_home_row(&self) -> i32 {
        match self {
            Player::White => 7,
            Player::Black => 0,
        }
    }

    #[verifier::when_used_as_spec(spec_home_row)]
    pub fn home_row(&self) -> (row: i32)
        ensures
            row == self.spec_home_row(),
    {
        match self {
            Player::White => 7,
            Player::Black => 0,
        }
    }
}

/// What every kind of piece offers.
pub trait ChessPiece: Sized {
    /// The piece as a value of the closed family of pieces.
    spec fn piece(&self) -> Piece;

    fn get_color(&self) -> (color: Player)
        ensures
            color == self.piece().color(),
    ;

    fn get_piece_type(&self) -> (piece_type: PieceType)
        ensures
            piece_type == self.piece().piece_type(),
    ;

    /// The moves of the piece, which stands on `from_position`: all that
    /// its way of moving and the pieces around it allow, whether or not
    /// they leave its own king in check.
    fn get_moves(&self, from_position: Position, board: &Board) -> (moves: Vec<Move>)
        requires
            Board::is_inside(from_position),
            board@.piece_at(from_position) == Some(self.piece()),
        ensures
            moves@ == board@.pseudo_legal_moves(from_position),
    ;

    fn get_has_moved(&self) -> (has_moved: bool)
        ensures
            has_moved == self.piece().has_moved(),
    ;

    /// Records that the piece has moved. The record is never taken back.
    fn set_has_moved(&mut self)
        ensures
            final(self).piece() == old(self).piece().moved(),
    ;
}

/// One piece of the six kinds, as plain data: its kind, its colour and, for
/// pawn, rook and king, whether it has moved.
#[derive(Clone, Copy, PartialEq, Eq, Structural, Debug)]
pub enum Piece {
    Pawn(Pawn),
    Knight(Knight),
    Bishop(Bishop),
    Rook(Rook),
    Queen(Queen),
    King(King),
}

impl Piece {
    pub open spec fn color(self) -> Player {
        match self {
            Piece::Pawn(p) => p.player,
            Piece::Knight(p) => p.player,
            Piece::Bishop(p) => p.player,
            Piece::Rook(p) => p.player,
            Piece::Queen(p) => p.player,
            Piece::King(p) => p.player,
        }
    }

    pub open spec fn piece_type(self) -> PieceType {
        match self {
            Piece::Pawn(_) => PieceType::Pawn,
            Piece::Knight(_) => PieceType::Knight,
            Piece::Bishop(_) => PieceType::Bishop,
            Piece::Rook(_) => PieceType::Rook,
            Piece::Queen(_) => PieceType::Queen,
            Piece::King(_) => PieceType::King,
        }
    }

    /// Whether the piece has left its first square. Knight, bishop and queen
    /// keep no record of it and always answer no.
    pub open spec fn has_moved(self) -> bool {
        match self {
            Piece::Pawn(p) => p.has_moved,
            Piece::Rook(p) => p.has_moved,
            Piece::King(p) => p.has_moved,
            _ => false,
        }
    }

    /// The same piece after a move: marked as moved where it keeps the mark.
    pub open spec fn moved(self) -> Piece {
        match self {
            Piece::Pawn(p) => Piece::Pawn(Pawn { player: p.player, has_moved: true }),
            Piece::Rook(p) => Piece::Rook(Rook { player: p.player, has_moved: true }),
            Piece::King(p) => Piece::King(King { player: p.player, has_moved: true }),
            _ => self,
        }
    }

    pub fn get_color(&self) -> (color: Player)
        ensures
            color == self.color(),
    {
        match self {
            Piece::Pawn(p) => p.player,
            Piece::Knight(p) => p.player,
            Piece::Bishop(p) => p.player,
            Piece::Rook(p) => p.player,
            Piece::Queen(p) => p.player,
            Piece::King(p) => p.player,
        }
    }

    pub fn get_piece_type(&self) -> (piece_type: PieceType)
        ensures
            piece_type == self.piece_type(),
    {
        match self {
            Piece::Pawn(_) => PieceType::Pawn,
            Piece::Knight(_) => PieceType::Knight,
            Piece::Bishop(_) => PieceType::Bishop,
            Piece::Rook(_) => PieceType::Rook,
            Piece::Queen(_) => PieceType::Queen,
            Piece::King(_) => PieceType::King,
        }
    }

    pub fn get_has_moved(&self) -> (has_moved: bool)
        ensures
            has_moved == self.has_moved(),
    {
        match self {
            Piece::Pawn(p) => p.has_moved,
            Piece::Rook(p) => p.has_moved,
            Piece::King(p) => p.has_moved,
            _ => false,
        }
    }

    /// Records that the piece has moved. The record is never taken back.
    pub fn set_has_moved(&mut self)
        ensures
            *final(self) == old(self).moved(),
    {
        match self {
            Piece::Pawn(p) => {
                p.has_moved = true;
            },
            Piece::Rook(p) => {
                p.has_moved = true;
            },
            Piece::King(p) => {
                p.has_moved = true;
            },
            _ => {},
        }
    }

    /// The moves of the piece, which stands on `from_position`: all that
    /// its way of moving and the pieces around it allow, whether or not
    /// they leave its own king in check.
    pub fn get_moves(&self, from_position: Position, board: &Board) -> (moves: Vec<Move>)
        requires
            Board::is_inside(from_position),
            board@.piece_at(from_position) == Some(*self),
        ensures
            moves@ == board@.pseudo_legal_moves(from_position),
        decreases board@.unmoved_kings(), 4nat,
    {
        match self {
            Piece::Pawn(p) => p.moves_from(from_position, board),
            Piece::Knight(p) => p.moves_from(from_position, board),
            Piece::Bishop(p) => p.moves_from(from_position, board),
            Piece::Rook(p) => p.moves_from(from_position, board),
            Piece::Queen(p) => p.moves_from(from_position, board),
            Piece::King(p) => p.moves_from(from_position, board),
        }
    }

    /// The test that accepts the pieces of `player` of the kind
    /// `piece_type`.
    pub open spec fn of_kind(player: Player, piece_type: PieceType) -> spec_fn(Piece) -> bool {
        |piece: Piece| piece.color() == player && piece.piece_type() == piece_type
    }

    /// The test that accepts every piece.
    pub open spec fn any() -> spec_fn(Piece) -> bool {
        |piece: Piece| true
    }

    /// The name under which the picture of the piece is kept: the colour
    /// and the kind in small letters, as in `whiteknight`.
    pub open spec fn spec_asset_name(self) -> Seq<char> {
        match (self.color(), self.piece_type()) {
            (Player::White, PieceType::Pawn) => "whitepawn"@,
            (Player::White, PieceType::Knight) => "whiteknight"@,
            (Player::White, PieceType::Bishop) => "whitebishop"@,
            (Player::White, PieceType::Rook) => "whiterook"@,
            (Player::White, PieceType::Queen) => "whitequeen"@,
            (Player::White, PieceType::King) => "whiteking"@,
            (Player::Black, PieceType::Pawn) => "blackpawn"@,
            (Player::Black, PieceType::Knight) => "blackknight"@,
            (Player::Black, PieceType::Bishop) => "blackbishop"@,
            (Player::Black, PieceType::Rook) => "blackrook"@,
            (Player::Black, PieceType::Queen) => "blackqueen"@,
            (Player::Black, PieceType::King) => "blackking"@,
        }
    }

    pub fn asset_name(&self) -> (name: &'static str)
        ensures
            name@ == self.spec_asset_name(),
    {
        match self.get_color() {
            Player::White => match self.get_piece_type() {
                PieceType::Pawn => "whitepawn",
                PieceType::Knight => "whiteknight",
                PieceType::Bishop => "whitebishop",
                PieceType::Rook => "whiterook",
                PieceType::Queen => "whitequeen",
                PieceType::King => "whiteking",
            },
            Player::Black => match self.get_piece_type() {
                PieceType::Pawn => "blackpawn",
                PieceType::Knight => "blackknight",
                PieceType::Bishop => "blackbishop",
                PieceType::Rook => "blackrook",
                PieceType::Queen => "blackqueen",
                PieceType::King => "blackking",
            },
        }
    }

    /// A king that may still castle.
    pub open spec fn is_unmoved_king(self) -> bool {
        self.piece_type() == PieceType::King && !self.has_moved()
    }
}

impl ChessPiece for Piece {
    open spec fn piece(&self) -> Piece {
        *self
    }

    fn get_color(&self) -> (color: Player)
        ensures
            color == self.color(),
    {
        Piece::get_color(self)
    }

    fn get_piece_type(&self) -> (piece_type: PieceType)
        ensures
            piece_type == self.piece_type(),
    {
        Piece::get_piece_type(self)
    }

    fn get_moves(&self, from_position: Position, board: &Board) -> (moves: Vec<Move>)
        ensures
            moves@ == board@.pseudo_legal_moves(from_position),
    {
        Piece::get_moves(self, from_position, board)
    }

    fn get_has_moved(&self) -> (has_moved: bool)
        ensures
            has_moved == self.has_moved(),
    {
        Piece::get_has_moved(self)
    }

    fn set_has_moved(&mut self)
        ensures
            *final(self) == old(self).moved(),
    {
        Piece::set_has_moved(self)
    }
}

} // verus!
