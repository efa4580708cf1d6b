use vstd::prelude::*;
use crate::game::piece::{PieceType, Player};
use crate::game::position::Position;

verus! {

/// What a game has been told and still has to act on.
#[derive(Clone, Copy, PartialEq, Eq, Structural, Debug)]
pub enum GameEvent {
    /// The players want another game.
    Replay,
    /// The players want to leave.
    Exit,
    /// The pawn on the given square is to become a piece of the given kind.
    ChoosePiece(PieceType, Position),
    /// The position has changed: the game may be over.
    CheckForGameEnd,
}

/// What a game asks of the program around it.
#[derive(Clone, Copy, PartialEq, Eq, Structural, Debug)]
pub enum AppEvent {
    OpenMainMenu,
    OpenNewGame,
}

/// How a game has ended.
#[derive(Clone, Copy, PartialEq, Eq, Structural, Debug)]
pub enum EndType {
    /// The named player has won.
    Checkmate(Player),
    Stalemate,
    InsufficientMaterial,
    Repetition,
    FiftyMoveRule,
}

/// The question that a game has put to the players and waits on. While one
/// is open the board takes no input.
#[derive(Clone, Copy, PartialEq, Eq, Structural, Debug)]
pub enum ModalKind {
    /// The game is over; play again or leave?
    Endgame(EndType),
    /// Which piece is the pawn on this square to become?
    PawnPromotion(Position),
}

/// A square to be marked for the players as one where the selected piece
/// may go, and whether it would take a piece there.
#[derive(Clone, Copy, PartialEq, Eq, Structural, Debug)]
pub struct Highlight {
    pub position: Position,
    pub capture: bool,
}

/// A button of the pointer.
#[derive(Clone, Copy, PartialEq, Eq, Structural, Debug)]
pub enum MouseButton {
    Left,
    Right,
    Middle,
    Other(u16),
}

/// A press of a pointer button: the button, and the square of the board
/// under the pointer, if any.
#[derive(Clone, Copy, PartialEq, Eq, Structural, Debug)]
pub struct Press {
    pub square: Option<Position>,
    pub button: MouseButton,
}

impl EndType {
    /// The words in which the ending is told to the players.
    pub open spec fn spec_message(self) -> Seq<char> {
        match self {
            EndType::Checkmate(Player::White) => "White Won by checkmate"@,
            EndType::Checkmate(Player::Black) => "Black Won by checkmate"@,
            EndType::Stalemate => "Draw by Stalemate"@,
            EndType::InsufficientMaterial => "Draw by Insufficient Material"@,
            EndType::Repetition => "Draw by Repetition"@,
            EndType::FiftyMoveRule => "Draw by 50 Move Rule"@,
        }
    }

    pub fn message(self) -> (text: &'static str)
        ensures
            text@ == self.spec_message(),
    {
        match self {
            EndType::Checkmate(player) => if player == Player::White {
                "White Won by checkmate"
            } else {
                "Black Won by checkmate"
            },
            EndType::Stalemate => "Draw by Stalemate",
            EndType::InsufficientMaterial => "Draw by Insufficient Material",
            EndType::Repetition => "Draw by Repetition",
            EndType::FiftyMoveRule => "Draw by 50 Move Rule",
        }
    }
}

impl GameEvent {
    /// What the event asks of the program around the game, if anything.
    pub open spec fn spec_app_event(self) -> Option<AppEvent> {
        match self {
            GameEvent::Replay => Some(AppEvent::OpenNewGame),
            GameEvent::Exit => Some(AppEvent::OpenMainMenu),
            _ => None,
        }
    }

    #[verifier::when_used_as_spec(spec_app_event)]
    pub fn app_event(self) -> (asked: Option<AppEvent>)
        ensures
            asked == self.spec_app_event(),
    {
        match self {
            GameEvent::Replay => Some(AppEvent::OpenNewGame),
            GameEvent::Exit => Some(AppEvent::OpenMainMenu),
            _ => None,
        }
    }
}

} // verus!
