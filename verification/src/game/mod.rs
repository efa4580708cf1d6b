use vstd::hash_map::StringHashMap;
use vstd::prelude::*;
use crate::game::board::{Board, BoardView};
use crate::game::distinct_ends::distinct_ends;
use crate::game::game_event::{
    AppEvent, EndType, GameEvent, Highlight, ModalKind, MouseButton, Press,
};
use crate::game::piece::bishop::Bishop;
use crate::game::piece::knight::Knight;
use crate::game::piece::queen::Queen;
use crate::game::piece::rook::Rook;
use crate::game::piece::{Piece, PieceType, Player};
use crate::game::piece_counting::{PieceCounting, PieceTally};
use crate::game::piece_move::Move;
use crate::game::position::Position;
use crate::game::proofs::{
    lemma_count_at_most, lemma_counted_piece_exists, lemma_first_is_one,
    lemma_promotion_keeps_moves,
};
use crate::game::theorems::lemma_moves_keep_kings_at_home;

pub mod board;
pub mod direction;
pub mod distinct_ends;
pub mod game_event;
pub mod piece;
pub mod piece_counting;
pub mod piece_move;
pub mod position;
pub mod proofs;
pub mod theorems;

verus! {

/// One game: the board, whose turn it is, what the players have selected,
/// and what is counted toward the draws.
pub struct Game {
    pub board: Board,
    /// The question that waits on the players, if any.
    pub modals: Option<ModalKind>,
    /// The legal moves of the selected piece, while one is selected.
    pub legal_moves: Option<Vec<Move>>,
    pub current_player: Player,
    /// The moves made since the last capture or pawn move.
    pub fifty_move_rule: u8,
    /// How often each position has come up.
    pub snapshots: StringHashMap<u8>,
    pub is_checked: bool,
    /// What the game has been told and has yet to act on.
    pub game_events: Vec<GameEvent>,
}

/// A game as mathematics.
pub struct GameView {
    pub board: BoardView,
    pub modals: Option<ModalKind>,
    pub legal_moves: Option<Seq<Move>>,
    pub current_player: Player,
    pub fifty_move_rule: u8,
    pub snapshots: Map<Seq<char>, u8>,
    pub is_checked: bool,
    pub game_events: Seq<GameEvent>,
}

impl View for Game {
    type V = GameView;

    open spec fn view(&self) -> GameView {
        GameView {
            board: self.board@,
            modals: self.modals,
            legal_moves: match self.legal_moves {
                Some(moves) => Some(moves@),
                None => None,
            },
            current_player: self.current_player,
            fifty_move_rule: self.fifty_move_rule,
            snapshots: self.snapshots@,
            is_checked: self.is_checked,
            game_events: self.game_events@,
        }
    }
}

impl GameView {
    /// A game that has just begun: white to move on the starting board,
    /// nothing selected, counted or asked.
    pub open spec fn starting() -> GameView {
        GameView {
            board: BoardView::starting(),
            modals: None,
            legal_moves: None,
            current_player: Player::White,
            fifty_move_rule: 0,
            snapshots: Map::empty(),
            is_checked: false,
            game_events: Seq::empty(),
        }
    }

    /// What holds of every game that play has reached: each unmoved king
    /// stands on its home row, each move kept for the selected piece can
    /// be carried out on the board, and no two of them end on the same
    /// square.
    pub open spec fn wf(self) -> bool {
        &&& self.board.kings_at_home()
        &&& match self.legal_moves {
            Some(moves) => {
                &&& forall|i: int|
                    0 <= i < moves.len() ==> (#[trigger] moves[i]).can_apply(self.board)
                &&& distinct_ends(moves)
            },
            None => true,
        }
    }

    /// The squares to be marked while a piece is selected: where each of its
    /// kept moves ends, in their order, and whether a piece stands there.
    pub open spec fn highlights(self) -> Seq<Highlight> {
        match self.legal_moves {
            Some(moves) => Seq::new(
                moves.len(),
                |i: int|
                    Highlight {
                        position: moves[i].to_pos(),
                        capture: !self.board.is_empty(moves[i].to_pos()),
                    },
            ),
            None => Seq::empty(),
        }
    }

    /// The game with nothing selected.
    pub open spec fn deselect(self) -> GameView {
        GameView { legal_moves: None, ..self }
    }

    /// The game after the square `position` was picked while nothing was
    /// selected: if a piece of the player to move stands there, it is
    /// selected and its legal moves are kept; else nothing changes.
    pub open spec fn select(self, position: Position) -> GameView {
        if self.board.holds_color(position, self.current_player) {
            GameView { legal_moves: Some(self.board.legal_moves(position)), ..self }
        } else {
            self
        }
    }

    /// Whether `piece_move` takes a piece or moves a pawn, and so starts
    /// the count toward the fifty-move rule anew.
    pub open spec fn resets_count(self, piece_move: Move) -> bool {
        !self.board.is_empty(piece_move.to_pos())
            || self.board.squares[piece_move.from_pos()].piece_type() == PieceType::Pawn
    }

    /// The game after `piece_move` was made: the move is carried out on the
    /// board; the count toward the fifty-move rule is one more, or 0 after
    /// a capture or a pawn's move; a promotion asks which piece the pawn is
    /// to become; nothing is selected; the turn passes; and the game has
    /// yet to look whether it is over.
    pub open spec fn commit(self, piece_move: Move) -> GameView {
        GameView {
            board: piece_move.apply(self.board),
            modals: if piece_move is PawnPromotion {
                Some(ModalKind::PawnPromotion(piece_move.to_pos()))
            } else {
                self.modals
            },
            legal_moves: None,
            current_player: self.current_player.opponent(),
            fifty_move_rule: if self.resets_count(piece_move) {
                0
            } else {
                (self.fifty_move_rule + 1) as u8
            },
            game_events: self.game_events.push(GameEvent::CheckForGameEnd),
            ..self
        }
    }

    /// The first of `moves` that ends on `position`, if any does.
    pub open spec fn first_ending_on(moves: Seq<Move>, position: Position) -> Option<Move>
        decreases moves.len(),
    {
        if moves.len() == 0 {
            None
        } else if moves[0].to_pos() == position {
            Some(moves[0])
        } else {
            Self::first_ending_on(moves.drop_first(), position)
        }
    }

    /// The game after the square `position` of the board was picked. While
    /// a piece is selected, the first of its kept moves that ends on the
    /// square is made (in a game that play has reached it is the only
    /// one), and a square on which none ends changes nothing. While none
    /// is selected, the square is looked at for a piece to select.
    pub open spec fn click(self, position: Position) -> GameView {
        match self.legal_moves {
            Some(moves) => match Self::first_ending_on(moves, position) {
                Some(piece_move) => self.commit(piece_move),
                None => self,
            },
            None => self.select(position),
        }
    }

    /// Whether the pick of `position` can be acted on: the count toward
    /// the fifty-move rule must have room for the move that it makes.
    pub open spec fn can_click(self, position: Position) -> bool {
        match self.legal_moves {
            Some(moves) => Self::first_ending_on(moves, position) is Some ==> self.fifty_move_rule
                < u8::MAX,
            None => true,
        }
    }

    /// The game after a press: the right button drops the selection; then
    /// a press on a square of the board, with whatever button, picks that
    /// square.
    pub open spec fn press(self, press: Press) -> GameView {
        let dropped = if press.button == MouseButton::Right {
            self.deselect()
        } else {
            self
        };
        match press.square {
            Some(position) => if Board::is_inside(position) {
                dropped.click(position)
            } else {
                dropped
            },
            None => dropped,
        }
    }

    /// Whether `press` can be acted on.
    pub open spec fn can_press(self, press: Press) -> bool {
        let dropped = if press.button == MouseButton::Right {
            self.deselect()
        } else {
            self
        };
        match press.square {
            Some(position) => Board::is_inside(position) ==> dropped.can_click(position),
            None => true,
        }
    }

    /// Whether a pawn can become a piece of the kind `piece_type`.
    pub open spec fn promotable(piece_type: PieceType) -> bool {
        piece_type == PieceType::Knight || piece_type == PieceType::Bishop || piece_type
            == PieceType::Rook || piece_type == PieceType::Queen
    }

    /// The new piece of the kind `piece_type` for `player`, if a pawn can
    /// become one.
    pub open spec fn promotion(piece_type: PieceType, player: Player) -> Option<Piece> {
        match piece_type {
            PieceType::Knight => Some(Piece::Knight(Knight { player })),
            PieceType::Bishop => Some(Piece::Bishop(Bishop { player })),
            PieceType::Rook => Some(Piece::Rook(Rook { player, has_moved: false })),
            PieceType::Queen => Some(Piece::Queen(Queen { player })),
            _ => None,
        }
    }

    /// The game after the players chose `piece_type` for the pawn on
    /// `position`: a new piece of that kind and of the pawn's colour stands
    /// there, no question is open, and the game has yet to look whether it
    /// is over.
    pub open spec fn promote(self, piece_type: PieceType, position: Position) -> GameView {
        GameView {
            board: self.board.with_square(
                position,
                Self::promotion(piece_type, self.board.squares[position].color()),
            ),
            modals: None,
            game_events: self.game_events.push(GameEvent::CheckForGameEnd),
            ..self
        }
    }

    /// How often the position on the board has come up, this time
    /// included.
    pub open spec fn times_seen(self) -> int {
        if self.snapshots.contains_key(self.board.fingerprint()) {
            self.snapshots[self.board.fingerprint()] + 1
        } else {
            1
        }
    }

    /// How the game has ended, if it has, for `player` to move on `board`,
    /// the position seen `seen` times, and `fifty` moves made since the last
    /// capture or pawn move. Where several endings hold at once, the
    /// fifty-move rule goes before insufficient material, that before mate
    /// and stalemate, and those before repetition.
    pub open spec fn verdict(board: BoardView, player: Player, seen: int, fifty: u8) -> Option<EndType> {
        if fifty >= 100 {
            Some(EndType::FiftyMoveRule)
        } else if board.insufficient_material() {
            Some(EndType::InsufficientMaterial)
        } else if !board.can_move(player) {
            if board.in_check(player) {
                Some(EndType::Checkmate(player.opponent()))
            } else {
                Some(EndType::Stalemate)
            }
        } else if seen == 3 {
            Some(EndType::Repetition)
        } else {
            None
        }
    }

    /// The game after it has looked whether it is over: the position is
    /// counted once more, it is known whether the player to move is in
    /// check, and an ending, if there is one, is put to the players.
    pub open spec fn check_for_game_end(self) -> GameView {
        GameView {
            snapshots: self.snapshots.insert(self.board.fingerprint(), self.times_seen() as u8),
            is_checked: self.board.in_check(self.current_player),
            modals: match Self::verdict(
                self.board,
                self.current_player,
                self.times_seen(),
                self.fifty_move_rule,
            ) {
                Some(end_type) => Some(ModalKind::Endgame(end_type)),
                None => self.modals,
            },
            ..self
        }
    }

    /// Whether `event` can be acted on: a choice of piece must name a kind
    /// that a pawn can become and an occupied square of the board, and the
    /// count of the position must have room for one more.
    pub open spec fn can_handle(self, event: GameEvent) -> bool {
        match event {
            GameEvent::ChoosePiece(piece_type, position) => {
                &&& Self::promotable(piece_type)
                &&& Board::is_inside(position)
                &&& !self.board.is_empty(position)
            },
            GameEvent::CheckForGameEnd => self.times_seen() <= u8::MAX,
            _ => true,
        }
    }

    /// The game after it has acted on `event`. What an event asks of the
    /// program around the game leaves the game as it is.
    pub open spec fn handle(self, event: GameEvent) -> GameView {
        match event {
            GameEvent::ChoosePiece(piece_type, position) => self.promote(piece_type, position),
            GameEvent::CheckForGameEnd => self.check_for_game_end(),
            _ => self,
        }
    }

    /// Whether `events` can be acted on one after another.
    pub open spec fn can_handle_all(self, events: Seq<GameEvent>) -> bool
        decreases events.len(),
    {
        events.len() > 0 ==> self.can_handle(events[0]) && self.handle(events[0]).can_handle_all(
            events.drop_first(),
        )
    }

    /// The game after it has acted on `events` one after another.
    pub open spec fn handle_all(self, events: Seq<GameEvent>) -> GameView
        decreases events.len(),
    {
        if events.len() == 0 {
            self
        } else {
            self.handle(events[0]).handle_all(events.drop_first())
        }
    }

    /// What `events` ask of the program around the game, in their order.
    pub open spec fn asked(events: Seq<GameEvent>) -> Seq<AppEvent>
        decreases events.len(),
    {
        if events.len() == 0 {
            Seq::empty()
        } else {
            let rest = Self::asked(events.drop_first());
            match events[0].app_event() {
                Some(app_event) => seq![app_event] + rest,
                None => rest,
            }
        }
    }

    /// The game with nothing left to act on.
    pub open spec fn drained(self) -> GameView {
        GameView { game_events: Seq::empty(), ..self }
    }

    /// Whether the game can take one turn of the program's loop with
    /// `press`.
    pub open spec fn can_update(self, press: Option<Press>) -> bool {
        self.modals is None ==> {
            &&& self.drained().can_handle_all(self.game_events)
            &&& match press {
                Some(press) => self.drained().handle_all(self.game_events).can_press(press),
                None => true,
            }
        }
    }

    /// The game after one turn of the program's loop. While a question is
    /// open, only its answer is taken: it is kept to be acted on in the
    /// next turn, and the question is closed. Else the game acts on all
    /// that it has been told, and then on the press.
    pub open spec fn update(self, press: Option<Press>, answer: Option<GameEvent>) -> GameView {
        if self.modals is Some {
            match answer {
                Some(message) => GameView {
                    game_events: self.game_events.push(message),
                    modals: None,
                    ..self
                },
                None => self,
            }
        } else {
            let told = self.drained().handle_all(self.game_events);
            match press {
                Some(press) => told.press(press),
                None => told,
            }
        }
    }

    /// How often `key` stands in `keys`.
    pub open spec fn occurrences(keys: Seq<Seq<char>>, key: Seq<char>) -> nat
        decreases keys.len(),
    {
        if keys.len() == 0 {
            0
        } else {
            Self::occurrences(keys.drop_last(), key) + if keys.last() == key {
                1nat
            } else {
                0nat
            }
        }
    }

    /// How often the position `key` has come up, where `counts` holds how
    /// often it had and `recorded` lists the positions that came up since.
    pub open spec fn counted(counts: Map<Seq<char>, u8>, recorded: Seq<Seq<char>>, key: Seq<char>) -> int {
        Self::occurrences(recorded, key) + if counts.contains_key(key) {
            counts[key] as int
        } else {
            0
        }
    }

    /// Whether this game is `start` after some of what it had been told,
    /// in the course of which the positions `recorded` came up: nothing
    /// but the board, the open question, the counts of the positions and
    /// the knowledge of check has changed, and the counts have grown by
    /// what came up.
    pub open spec fn follows(self, start: GameView, recorded: Seq<Seq<char>>) -> bool {
        &&& self.legal_moves == start.legal_moves
        &&& self.fifty_move_rule == start.fifty_move_rule
        &&& forall|key: Seq<char>| #[trigger]
            self.snapshots.contains_key(key) <==> start.snapshots.contains_key(key)
                || Self::occurrences(recorded, key) > 0
        &&& forall|key: Seq<char>|
            self.snapshots.contains_key(key) ==> #[trigger] self.snapshots[key] == Self::counted(
                start.snapshots,
                recorded,
                key,
            )
    }

    /// What the game asks of the program around it in one turn of the
    /// program's loop.
    pub open spec fn asks(self) -> Seq<AppEvent> {
        if self.modals is Some {
            Seq::empty()
        } else {
            Self::asked(self.game_events)
        }
    }
}

impl Game {
    pub fn new() -> (game: Self)
        ensures
            game@ == GameView::starting(),
            game@.wf(),
    {
        let game = Self {
            board: Board::new(),
            modals: None,
            legal_moves: None,
            current_player: Player::White,
            fifty_move_rule: 0,
            snapshots: StringHashMap::new(),
            is_checked: false,
            game_events: Vec::new(),
        };
        assert(game@.game_events =~= Seq::<GameEvent>::empty());
        game
    }

    /// The squares to be marked for the players: where the selected piece
    /// may go.
    pub fn get_highlights(&self) -> (marks: Vec<Highlight>)
        requires
            self@.wf(),
        ensures
            marks@ == self@.highlights(),
    {
        let mut marks: Vec<Highlight> = Vec::new();
        if let Some(legal_moves) = &self.legal_moves {
            assert(self@.legal_moves == Some(legal_moves@));
            let mut i: usize = 0;
            while i < legal_moves.len()
                invariant
                    0 <= i <= legal_moves@.len(),
                    self@.wf(),
                    self@.legal_moves == Some(legal_moves@),
                    marks@.len() == i,
                    forall|k: int| 0 <= k < i ==> marks@[k] == self@.highlights()[k],
                decreases legal_moves@.len() - i,
            {
                let to = legal_moves[i].get_to_pos();
                proof {
                    let kept = self@.legal_moves.unwrap();
                    assert(kept[i as int].can_apply(self@.board));
                }
                assert(Board::is_inside(to)) by {
                    let piece_move = legal_moves@[i as int];
                    match piece_move {
                        Move::Normal(m) => {},
                        Move::DoublePawn(m) => {},
                        Move::EnPassant(m) => {},
                        Move::Castle(m) => {},
                        Move::PawnPromotion(m) => {},
                    }
                }
                marks.push(Highlight { position: to, capture: self.board.get(to).is_some() });
                i += 1;
            }
        }
        assert(marks@ =~= self@.highlights());
        marks
    }

    /// The square of the king that is in check, while the player to move
    /// is known to be in check. That player must then have a king.
    pub fn get_checked_king(&self) -> (square: Option<Position>)
        requires
            self@.is_checked ==> exists|p: Position|
                self@.board.holds(p, self@.current_player, PieceType::King),
        ensures
            match square {
                Some(position) => self@.is_checked && self@.board.is_first(
                    position,
                    self@.current_player,
                    PieceType::King,
                ),
                None => !self@.is_checked,
            },
    {
        if self.is_checked {
            Some(self.board.find_piece(self.current_player, PieceType::King))
        } else {
            None
        }
    }

    /// Drops the selection.
    pub fn deselect(&mut self)
        ensures
            final(self)@ == old(self)@.deselect(),
            old(self)@.wf() ==> final(self)@.wf(),
    {
        self.legal_moves = None;
    }

    /// Looks at `position` for a piece to select.
    pub fn select(&mut self, position: Position)
        requires
            old(self)@.board.kings_at_home(),
            Board::is_inside(position),
        ensures
            final(self)@ == old(self)@.select(position),
            old(self)@.wf() ==> final(self)@.wf(),
            old(self)@.board.holds_color(position, old(self)@.current_player) ==> final(self)@.wf(),
    {
        let piece = self.board.get(position);

        if let Some(piece) = piece {
            if self.current_player == piece.get_color() {
                let piece_moves = self.board.get_legal_moves(position);

                self.legal_moves = Some(piece_moves);
            }
        }
    }

    /// Makes `piece_move`.
    pub fn commit(&mut self, piece_move: Move)
        requires
            old(self)@.board.kings_at_home(),
            piece_move.can_apply(old(self)@.board),
            old(self)@.fifty_move_rule < u8::MAX,
        ensures
            final(self)@ == old(self)@.commit(piece_move),
            final(self)@.wf(),
    {
        self.fifty_move_rule += 1;
        if self.board.get(piece_move.get_to_pos()).is_some() || self.board.get(
            piece_move.get_from_pos(),
        ).unwrap().get_piece_type() == PieceType::Pawn {
            self.fifty_move_rule = 0;
        }
        proof {
            lemma_moves_keep_kings_at_home(self@.board, piece_move);
        }

        piece_move.execute(&mut self.board);

        if piece_move.is_pawn_promotion_move() {
            self.modals = Some(ModalKind::PawnPromotion(piece_move.get_to_pos()));
        }
        self.legal_moves = None;
        self.current_player = self.current_player.get_opponent();

        self.game_events.push(GameEvent::CheckForGameEnd);
    }

    /// The first of the kept moves that ends on `position`, if a piece is
    /// selected and one of its moves does.
    fn chosen_move(&self, position: Position) -> (chosen: Option<Move>)
        ensures
            chosen == match self@.legal_moves {
                Some(moves) => GameView::first_ending_on(moves, position),
                None => None,
            },
            self@.wf() && chosen is Some ==> chosen.unwrap().can_apply(self@.board),
    {
        match &self.legal_moves {
            Some(legal_moves) => {
                assert(self@.legal_moves == Some(legal_moves@));
                assert(legal_moves@.skip(0) =~= legal_moves@);
                let mut i: usize = 0;
                while i < legal_moves.len()
                    invariant
                        0 <= i <= legal_moves@.len(),
                        self@.legal_moves == Some(legal_moves@),
                        GameView::first_ending_on(legal_moves@.skip(i as int), position)
                            == GameView::first_ending_on(legal_moves@, position),
                    decreases legal_moves@.len() - i,
                {
                    let piece_move = legal_moves[i];
                    proof {
                        assert(legal_moves@.skip(i as int)[0] == piece_move);
                        assert(legal_moves@.skip(i as int).drop_first() =~= legal_moves@.skip(i + 1));
                        assert(piece_move == legal_moves@[i as int]);
                    }
                    if piece_move.get_to_pos() == position {
                        assert(GameView::first_ending_on(legal_moves@.skip(i as int), position)
                            == Some(piece_move));
                        return Some(piece_move);
                    }
                    i += 1;
                }
                assert(GameView::first_ending_on(legal_moves@.skip(i as int), position).is_none());
                None
            },
            None => None,
        }
    }

    /// Picks the square `position` of the board.
    pub fn click(&mut self, position: Position)
        requires
            old(self)@.wf(),
            old(self)@.can_click(position),
            Board::is_inside(position),
        ensures
            final(self)@ == old(self)@.click(position),
            final(self)@.wf(),
    {
        if self.legal_moves.is_some() {
            if let Some(piece_move) = self.chosen_move(position) {
                self.commit(piece_move);
            }
        } else {
            self.select(position);
        }
    }

    /// Acts on a press.
    pub fn press(&mut self, press: Press)
        requires
            old(self)@.wf(),
            old(self)@.can_press(press),
        ensures
            final(self)@ == old(self)@.press(press),
            final(self)@.wf(),
    {
        if press.button == MouseButton::Right {
            self.legal_moves = None;
        }
        if let Some(position) = press.square {
            if Board::is_inside(position) {
                self.click(position);
            }
        }
    }

    /// Puts a new piece of the kind `piece_type` in the place of the pawn
    /// on `position`.
    pub fn promote(&mut self, piece_type: PieceType, position: Position)
        requires
            old(self)@.wf(),
            old(self)@.can_handle(GameEvent::ChoosePiece(piece_type, position)),
        ensures
            final(self)@ == old(self)@.promote(piece_type, position),
            final(self)@.wf(),
    {
        self.modals = None;

        let old_piece = self.board.get(position).unwrap();
        let ghost before = self@.board;

        self.board.set(position, Self::promoted_piece(piece_type, old_piece.get_color()));

        self.game_events.push(GameEvent::CheckForGameEnd);
        proof {
            lemma_promotion_keeps_moves(before, piece_type, position);
        }
    }

    /// Looks whether the game is over.
    pub fn check_for_game_end(&mut self)
        requires
            old(self)@.wf(),
            old(self)@.can_handle(GameEvent::CheckForGameEnd),
        ensures
            final(self)@ == old(self)@.check_for_game_end(),
            final(self)@.wf(),
    {
        let snapshot = self.board.get_snapshot();

        let count: u8 = match self.snapshots.get(snapshot.as_str()) {
            Some(count) => *count + 1,
            None => 1,
        };
        self.snapshots.insert(snapshot, count);

        if count == 3 {
            self.modals = Some(ModalKind::Endgame(EndType::Repetition));
        }
        self.is_checked = self.board.get_check(self.current_player);

        if self.is_checkmate_or_stalemate() {
            if self.is_checked {
                self.modals = Some(
                    ModalKind::Endgame(EndType::Checkmate(self.current_player.get_opponent())),
                );
            } else {
                self.modals = Some(ModalKind::Endgame(EndType::Stalemate));
            }
        }
        if self.is_insufficient_material() {
            self.modals = Some(ModalKind::Endgame(EndType::InsufficientMaterial));
        }
        if self.fifty_move_rule >= 100 {
            self.modals = Some(ModalKind::Endgame(EndType::FiftyMoveRule));
        }
    }

    /// Acts on `event`, and hands on to `app_events` what it asks of the
    /// program around the game.
    pub fn handle_event(&mut self, event: GameEvent, app_events: &mut Vec<AppEvent>)
        requires
            old(self)@.wf(),
            old(self)@.can_handle(event),
        ensures
            final(self)@ == old(self)@.handle(event),
            final(self)@.wf(),
            final(app_events)@ == old(app_events)@ + match event.app_event() {
                Some(app_event) => seq![app_event],
                None => Seq::empty(),
            },
    {
        match event {
            GameEvent::Replay => app_events.push(AppEvent::OpenNewGame),
            GameEvent::Exit => app_events.push(AppEvent::OpenMainMenu),
            GameEvent::ChoosePiece(piece_type, position) => {
                self.promote(piece_type, position);
            },
            GameEvent::CheckForGameEnd => {
                self.check_for_game_end();
            },
        }
        assert(app_events@ =~= old(app_events)@ + match event.app_event() {
            Some(app_event) => seq![app_event],
            None => Seq::empty(),
        });
    }

    /// How often `key` stands in `recorded`.
    fn times_recorded(recorded: &Vec<String>, key: &String) -> (times: usize)
        ensures
            times == GameView::occurrences(recorded@.map_values(|text: String| text@), key@),
            times <= recorded@.len(),
    {
        let ghost keys = recorded@.map_values(|text: String| text@);
        let mut times: usize = 0;
        let mut i: usize = 0;
        proof {
            assert(keys.take(0) =~= Seq::<Seq<char>>::empty());
        }
        while i < recorded.len()
            invariant
                0 <= i <= recorded@.len(),
                keys == recorded@.map_values(|text: String| text@),
                times <= i,
                times == GameView::occurrences(keys.take(i as int), key@),
            decreases recorded@.len() - i,
        {
            proof {
                assert(keys.take(i + 1).drop_last() =~= keys.take(i as int));
                assert(keys.take(i + 1).last() == recorded@[i as int]@);
            }
            if recorded[i] == *key {
                times += 1;
            }
            i += 1;
        }
        proof {
            assert(keys.take(recorded@.len() as int) =~= keys);
        }
        times
    }

    /// Whether a press can be acted on.
    pub fn can_press(&self, press: Press) -> (ok: bool)
        ensures
            ok == self@.can_press(press),
    {
        if press.button == MouseButton::Right || self.legal_moves.is_none() {
            return true;
        }
        match press.square {
            Some(position) => {
                if Board::is_inside(position) {
                    self.chosen_move(position).is_none() || self.fifty_move_rule < u8::MAX
                } else {
                    true
                }
            },
            None => true,
        }
    }

    /// Whether the game can take one turn of the program's loop with
    /// `press_data`: whether it can act on all that it has been told, one
    /// after another, and then on the press. The game itself stays as it
    /// is.
    pub fn can_update(&self, press_data: Option<Press>) -> (ok: bool)
        ensures
            ok == self@.can_update(press_data),
    {
        if self.modals.is_some() {
            return true;
        }
        let mut board = self.board;
        let mut recorded: Vec<String> = Vec::new();
        let ghost start = self@.drained();
        let ghost events = self@.game_events;
        let ghost mut now = start;
        let mut i: usize = 0;
        proof {
            assert(events.skip(0) =~= events);
        }
        while i < self.game_events.len()
            invariant
                0 <= i <= events.len(),
                self@.modals is None,
                events == self@.game_events,
                start == self@.drained(),
                board@ == now.board,
                now.follows(start, recorded@.map_values(|text: String| text@)),
                recorded@.len() <= i,
                start.can_handle_all(events) == now.can_handle_all(events.skip(i as int)),
                start.handle_all(events) == now.handle_all(events.skip(i as int)),
            decreases events.len() - i,
        {
            let event = self.game_events[i];
            let ghost keys = recorded@.map_values(|text: String| text@);
            proof {
                assert(events.skip(i as int)[0] == event);
                assert(events.skip(i as int).drop_first() =~= events.skip(i + 1));
            }
            match event {
                GameEvent::ChoosePiece(piece_type, position) => {
                    if !Board::is_inside(position) {
                        proof {
                            assert(!now.can_handle(event));
                            assert(!now.can_handle_all(events.skip(i as int)));
                        }
                        return false;
                    }
                    match board.get(position) {
                        Some(old_piece) => {
                            let new_piece = Self::promoted_piece(piece_type, old_piece.get_color());
                            if new_piece.is_none() {
                                proof {
                            assert(!now.can_handle(event));
                            assert(!now.can_handle_all(events.skip(i as int)));
                        }
                        return false;
                            }
                            board.set(position, new_piece);
                        },
                        None => {
                            proof {
                            assert(!now.can_handle(event));
                            assert(!now.can_handle_all(events.skip(i as int)));
                        }
                        return false;
                        },
                    }
                    proof {
                        now = now.promote(piece_type, position);
                    }
                },
                GameEvent::CheckForGameEnd => {
                    let snapshot = board.get_snapshot();
                    let had: u8 = match self.snapshots.get(snapshot.as_str()) {
                        Some(count) => *count,
                        None => 0,
                    };
                    let since = Self::times_recorded(&recorded, &snapshot);
                    proof {
                        assert(now.times_seen() == had + since + 1) by {
                            let key = snapshot@;
                            if now.snapshots.contains_key(key) {
                                assert(now.snapshots[key] == GameView::counted(
                                    start.snapshots,
                                    keys,
                                    key,
                                ));
                            }
                        }
                    }
                    if since >= (u8::MAX - had) as usize {
                        proof {
                            assert(!now.can_handle(event));
                            assert(!now.can_handle_all(events.skip(i as int)));
                        }
                        return false;
                    }
                    proof {
                        let after = now.check_for_game_end();
                        let more = recorded@.push(snapshot).map_values(|text: String| text@);
                        assert(more =~= keys.push(snapshot@));
                        assert(more.drop_last() =~= keys);
                        assert forall|key: Seq<char>|
                            after.snapshots.contains_key(key) implies #[trigger] after.snapshots[key]
                            == GameView::counted(start.snapshots, more, key) by {
                            if key != snapshot@ {
                                assert(now.snapshots.contains_key(key));
                                assert(now.snapshots[key] == GameView::counted(
                                    start.snapshots,
                                    keys,
                                    key,
                                ));
                            }
                        }
                        assert forall|key: Seq<char>| #[trigger]
                            after.snapshots.contains_key(key) <==> start.snapshots.contains_key(key)
                                || GameView::occurrences(more, key) > 0 by {
                            assert(now.snapshots.contains_key(key) <==> start.snapshots.contains_key(
                                key,
                            ) || GameView::occurrences(keys, key) > 0);
                        }
                        now = after;
                    }
                    recorded.push(snapshot);
                },
                _ => {},
            }
            i += 1;
        }
        proof {
            assert(events.skip(events.len() as int) =~= Seq::<GameEvent>::empty());
        }
        match press_data {
            Some(press) => self.can_press(press),
            None => true,
        }
    }

    /// The new piece of the kind `piece_type` for `player`, if a pawn can
    /// become one.
    pub fn promoted_piece(piece_type: PieceType, player: Player) -> (piece: Option<Piece>)
        ensures
            piece == GameView::promotion(piece_type, player),
            piece is Some <==> GameView::promotable(piece_type),
    {
        match piece_type {
            PieceType::Knight => Some(Piece::Knight(Knight::new(player))),
            PieceType::Bishop => Some(Piece::Bishop(Bishop::new(player))),
            PieceType::Rook => Some(Piece::Rook(Rook::new(player))),
            PieceType::Queen => Some(Piece::Queen(Queen::new(player))),
            _ => None,
        }
    }

    /// Takes one turn of the program's loop: with the press of this turn,
    /// if there was one, and with the answer that the press gave to the
    /// open question, if it gave one.
    pub fn update(
        &mut self,
        press_data: Option<Press>,
        answer: Option<GameEvent>,
        app_events: &mut Vec<AppEvent>,
    )
        requires
            old(self)@.wf(),
            old(self)@.can_update(press_data),
        ensures
            final(self)@ == old(self)@.update(press_data, answer),
            final(self)@.wf(),
            final(app_events)@ == old(app_events)@ + old(self)@.asks(),
    {
        if self.modals.is_some() {
            if let Some(message) = answer {
                self.game_events.push(message);
                self.modals = None;
            }
            assert(app_events@ =~= old(app_events)@ + old(self)@.asks());
        } else {
            let mut events: Vec<GameEvent> = Vec::new();
            events.append(&mut self.game_events);
            assert(events@ =~= old(self)@.game_events);
            assert(self@ == old(self)@.drained());
            assert(events@.skip(0) =~= events@);
            let mut i: usize = 0;
            while i < events.len()
                invariant
                    0 <= i <= events@.len(),
                    self@.wf(),
                    self@.can_handle_all(events@.skip(i as int)),
                    self@.handle_all(events@.skip(i as int)) == old(self)@.drained().handle_all(
                        events@,
                    ),
                    app_events@ + GameView::asked(events@.skip(i as int)) == old(app_events)@
                        + GameView::asked(events@),
                decreases events@.len() - i,
            {
                let event = events[i];
                proof {
                    assert(events@.skip(i as int)[0] == event);
                    assert(events@.skip(i as int).drop_first() =~= events@.skip(i + 1));
                }
                let ghost before = app_events@;
                self.handle_event(event, app_events);
                proof {
                    let rest = GameView::asked(events@.skip(i + 1));
                    match event.app_event() {
                        Some(app_event) => {
                            assert(app_events@ + rest =~= before + (seq![app_event] + rest));
                        },
                        None => {
                            assert(app_events@ =~= before);
                        },
                    }
                }
                i += 1;
            }
            proof {
                assert(events@.skip(events@.len() as int) =~= Seq::<GameEvent>::empty());
                assert(app_events@ + Seq::<AppEvent>::empty() =~= app_events@);
            }

            if let Some(press) = press_data {
                self.press(press);
            }
        }
    }

    /// Whether the player to move has no legal move: the game is over, by
    /// mate if that player is in check and by stalemate if not.
    pub fn is_checkmate_or_stalemate(&self) -> (stuck: bool)
        requires
            self@.board.kings_at_home(),
        ensures
            stuck == !self@.board.can_move(self@.current_player),
    {
        let mut col: i32 = 0;
        while col < 8
            invariant
                0 <= col <= 8,
                self@.board.kings_at_home(),
                forall|p: Position|
                    Board::is_inside(p) && p.column < col && self@.board.holds_color(
                        p,
                        self@.current_player,
                    ) ==> (#[trigger] self@.board.legal_moves(p)).len() == 0,
            decreases 8 - col,
        {
            let mut row: i32 = 0;
            while row < 8
                invariant
                    0 <= col < 8,
                    0 <= row <= 8,
                    self@.board.kings_at_home(),
                    forall|p: Position|
                        Board::is_inside(p) && (p.column < col || (p.column == col && p.row < row))
                            && self@.board.holds_color(p, self@.current_player) ==> (
                        #[trigger] self@.board.legal_moves(p)).len() == 0,
                decreases 8 - row,
            {
                let position = Position::new(col, row);
                if let Some(piece) = self.board.get(position) {
                    if piece.get_color() == self.current_player {
                        let piece_moves = self.board.get_legal_moves(position);

                        if !piece_moves.is_empty() {
                            assert(self@.board.legal_moves(position).len() > 0);
                            return false;
                        }
                    }
                }
                row += 1;
            }
            col += 1;
        }
        true
    }

    /// Whether `pieces` counts two pieces in all.
    pub fn is_king_v_king(&self, pieces: PieceCounting) -> (draw: bool)
        ensures
            draw == (pieces.total_pieces == 2),
    {
        pieces.total_pieces == 2
    }

    /// Whether `pieces` counts three pieces in all, a knight among them.
    pub fn is_king_v_king_knight(&self, pieces: PieceCounting) -> (draw: bool)
        ensures
            draw == (pieces.total_pieces == 3 && (pieces.white_pieces.of(PieceType::Knight) != 0
                || pieces.black_pieces.of(PieceType::Knight) != 0)),
    {
        pieces.total_pieces == 3 && (pieces.white_pieces.get(PieceType::Knight).is_some()
            || pieces.black_pieces.get(PieceType::Knight).is_some())
    }

    /// Whether `pieces` counts three pieces in all, a bishop among them.
    pub fn is_king_v_king_bishop(&self, pieces: PieceCounting) -> (draw: bool)
        ensures
            draw == (pieces.total_pieces == 3 && (pieces.white_pieces.of(PieceType::Bishop) != 0
                || pieces.black_pieces.of(PieceType::Bishop) != 0)),
    {
        pieces.total_pieces == 3 && (pieces.white_pieces.get(PieceType::Bishop).is_some()
            || pieces.black_pieces.get(PieceType::Bishop).is_some())
    }

    /// Whether `pieces` counts four pieces in all and a bishop on either
    /// side, and the first bishop of each colour on the board stands on a
    /// square of another colour than the other. Where `pieces` counts so,
    /// the board must hold a bishop of each colour.
    pub fn is_king_bishop_v_king_bishop(&self, pieces: PieceCounting) -> (draw: bool)
        requires
            pieces.total_pieces == 4 && pieces.white_pieces.of(PieceType::Bishop) != 0
                && pieces.black_pieces.of(PieceType::Bishop) != 0 ==> (exists|p: Position|
                self@.board.holds(p, Player::White, PieceType::Bishop)) && (exists|p: Position|
                self@.board.holds(p, Player::Black, PieceType::Bishop)),
        ensures
            draw == (pieces.total_pieces == 4 && pieces.white_pieces.of(PieceType::Bishop) != 0
                && pieces.black_pieces.of(PieceType::Bishop) != 0
                && self@.board.bishops_on_unlike_squares()),
    {
        if pieces.total_pieces == 4 && pieces.white_pieces.get(PieceType::Bishop).is_some()
            && pieces.black_pieces.get(PieceType::Bishop).is_some() {
            let white_bishop_pos = self.board.find_piece(Player::White, PieceType::Bishop);
            let black_bishop_pos = self.board.find_piece(Player::Black, PieceType::Bishop);
            proof {
                assert(self@.board.is_first(white_bishop_pos, Player::White, PieceType::Bishop));
                assert(self@.board.is_first(black_bishop_pos, Player::Black, PieceType::Bishop));
                lemma_first_is_one(self@.board, white_bishop_pos, Player::White, PieceType::Bishop);
                lemma_first_is_one(self@.board, black_bishop_pos, Player::Black, PieceType::Bishop);
            }

            if (white_bishop_pos.column + white_bishop_pos.row + black_bishop_pos.column
                + black_bishop_pos.row) % 2 != 0 {
                return true;
            }
        }
        false
    }

    /// Whether too little is left on the board for the game to go on.
    pub fn is_insufficient_material(&self) -> (draw: bool)
        ensures
            draw == self@.board.insufficient_material(),
    {
        let pieces = self.get_total_pieces();
        proof {
            let white = Piece::of_kind(Player::White, PieceType::Bishop);
            let black = Piece::of_kind(Player::Black, PieceType::Bishop);
            assert(pieces.white_pieces.of(PieceType::Bishop) == self@.board.pieces_of(
                Player::White,
                PieceType::Bishop,
            ));
            assert(pieces.black_pieces.of(PieceType::Bishop) == self@.board.pieces_of(
                Player::Black,
                PieceType::Bishop,
            ));
            assert(pieces.white_pieces.of(PieceType::Knight) == self@.board.pieces_of(
                Player::White,
                PieceType::Knight,
            ));
            assert(pieces.black_pieces.of(PieceType::Knight) == self@.board.pieces_of(
                Player::Black,
                PieceType::Knight,
            ));
            if pieces.white_pieces.of(PieceType::Bishop) != 0 {
                lemma_counted_piece_exists(self@.board, white, 64);
                let p = choose|p: Position| self@.board.has_wanted(white, p);
                assert(self@.board.holds(p, Player::White, PieceType::Bishop));
            }
            if pieces.black_pieces.of(PieceType::Bishop) != 0 {
                lemma_counted_piece_exists(self@.board, black, 64);
                let p = choose|p: Position| self@.board.has_wanted(black, p);
                assert(self@.board.holds(p, Player::Black, PieceType::Bishop));
            }
        }

        self.is_king_v_king(pieces) || self.is_king_v_king_knight(pieces)
            || self.is_king_v_king_bishop(pieces) || self.is_king_bishop_v_king_bishop(pieces)
    }

    /// Counts the pieces on the board.
    pub fn get_total_pieces(&self) -> (pieces: PieceCounting)
        ensures
            pieces.total_pieces == self@.board.total_pieces(),
            forall|piece_type: PieceType|
                pieces.white_pieces.of(piece_type) == #[trigger] self@.board.pieces_of(
                    Player::White,
                    piece_type,
                ),
            forall|piece_type: PieceType|
                pieces.black_pieces.of(piece_type) == #[trigger] self@.board.pieces_of(
                    Player::Black,
                    piece_type,
                ),
    {
        let mut total_pieces: i32 = 0;
        let mut black_pieces = PieceTally::new();
        let mut white_pieces = PieceTally::new();

        let mut col: i32 = 0;
        while col < 8
            invariant
                0 <= col <= 8,
                total_pieces == self@.board.count_below(Piece::any(), (col * 8) as nat),
                forall|piece_type: PieceType|
                    white_pieces.of(piece_type) == #[trigger] self@.board.count_below(
                        Piece::of_kind(Player::White, piece_type),
                        (col * 8) as nat,
                    ),
                forall|piece_type: PieceType|
                    black_pieces.of(piece_type) == #[trigger] self@.board.count_below(
                        Piece::of_kind(Player::Black, piece_type),
                        (col * 8) as nat,
                    ),
            decreases 8 - col,
        {
            let mut row: i32 = 0;
            while row < 8
                invariant
                    0 <= col < 8,
                    0 <= row <= 8,
                    total_pieces == self@.board.count_below(Piece::any(), (col * 8 + row) as nat),
                    forall|piece_type: PieceType|
                        white_pieces.of(piece_type) == #[trigger] self@.board.count_below(
                            Piece::of_kind(Player::White, piece_type),
                            (col * 8 + row) as nat,
                        ),
                    forall|piece_type: PieceType|
                        black_pieces.of(piece_type) == #[trigger] self@.board.count_below(
                            Piece::of_kind(Player::Black, piece_type),
                            (col * 8 + row) as nat,
                        ),
                decreases 8 - row,
            {
                let ghost index = (col * 8 + row) as nat;
                let ghost old_white = white_pieces;
                let ghost old_black = black_pieces;
                proof {
                    assert(Board::square(index as int) == Position { column: col, row });
                    lemma_count_at_most(self@.board, Piece::any(), index);
                    assert forall|piece_type: PieceType|
                        self@.board.count_below(
                            #[trigger] Piece::of_kind(Player::White, piece_type),
                            index,
                        ) <= index by {
                        lemma_count_at_most(
                            self@.board,
                            Piece::of_kind(Player::White, piece_type),
                            index,
                        );
                    }
                    assert forall|piece_type: PieceType|
                        self@.board.count_below(
                            #[trigger] Piece::of_kind(Player::Black, piece_type),
                            index,
                        ) <= index by {
                        lemma_count_at_most(
                            self@.board,
                            Piece::of_kind(Player::Black, piece_type),
                            index,
                        );
                    }
                }
                if let Some(piece) = self.board.get(Position::new(col, row)) {
                    if piece.get_color() == Player::Black {
                        assert(black_pieces.of(piece.piece_type()) == self@.board.count_below(
                            Piece::of_kind(Player::Black, piece.piece_type()),
                            index,
                        ));
                        black_pieces.record(piece.get_piece_type());
                    } else {
                        assert(white_pieces.of(piece.piece_type()) == self@.board.count_below(
                            Piece::of_kind(Player::White, piece.piece_type()),
                            index,
                        ));
                        white_pieces.record(piece.get_piece_type());
                    }
                    total_pieces += 1;
                }
                proof {
                    assert forall|piece_type: PieceType|
                        white_pieces.of(piece_type) == #[trigger] self@.board.count_below(
                            Piece::of_kind(Player::White, piece_type),
                            index + 1,
                        ) by {
                        assert(old_white.of(piece_type) == self@.board.count_below(
                            Piece::of_kind(Player::White, piece_type),
                            index,
                        ));
                    }
                    assert forall|piece_type: PieceType|
                        black_pieces.of(piece_type) == #[trigger] self@.board.count_below(
                            Piece::of_kind(Player::Black, piece_type),
                            index + 1,
                        ) by {
                        assert(old_black.of(piece_type) == self@.board.count_below(
                            Piece::of_kind(Player::Black, piece_type),
                            index,
                        ));
                    }
                }
                row += 1;
            }
            col += 1;
        }

        PieceCounting { total_pieces, black_pieces, white_pieces }
    }
}

} // verus!
