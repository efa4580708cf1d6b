use chess_rules::game::board::Board;
use chess_rules::game::game_event::{
    AppEvent, EndType, GameEvent, Highlight, ModalKind, MouseButton, Press,
};
use chess_rules::game::piece::bishop::Bishop;
use chess_rules::game::piece::king::King;
use chess_rules::game::piece::knight::Knight;
use chess_rules::game::piece::pawn::Pawn;
use chess_rules::game::piece::queen::Queen;
use chess_rules::game::piece::rook::Rook;
use chess_rules::game::piece::{Piece, PieceType, Player};
use chess_rules::game::piece_move::castle_move::CastleMove;
use chess_rules::game::piece_move::double_pawn_move::DoublePawnMove;
use chess_rules::game::piece_move::normal_move::NormalMove;
use chess_rules::game::piece_move::Move;
use chess_rules::game::position::Position;
use chess_rules::game::Game;

fn pos(column: i32, row: i32) -> Position {
    Position::new(column, row)
}

fn left(column: i32, row: i32) -> Option<Press> {
    Some(Press { square: Some(pos(column, row)), button: MouseButton::Left })
}

fn moved_king(player: Player) -> Piece {
    let mut king = King::new(player);
    king.has_moved = true;
    Piece::King(king)
}

fn moved_pawn(player: Player) -> Piece {
    let mut pawn = Pawn::new(player);
    pawn.has_moved = true;
    Piece::Pawn(pawn)
}

fn game_on(board: Board, player: Player) -> Game {
    let mut game = Game::new();
    game.board = board;
    game.current_player = player;
    game
}

/// Selects the piece on `from`, moves it to `to`, and lets the game look
/// whether it is over.
fn play(game: &mut Game, from: (i32, i32), to: (i32, i32)) {
    let mut app_events = Vec::new();
    game.update(left(from.0, from.1), None, &mut app_events);
    assert!(game.legal_moves.is_some());
    game.update(left(to.0, to.1), None, &mut app_events);
    assert!(game.legal_moves.is_none());
    game.update(None, None, &mut app_events);
    assert!(app_events.is_empty());
}

#[test]
fn a_new_game() {
    let game = Game::new();
    assert_eq!(game.board, Board::new());
    assert_eq!(game.modals, None);
    assert!(game.legal_moves.is_none());
    assert_eq!(game.current_player, Player::White);
    assert_eq!(game.fifty_move_rule, 0);
    assert!(game.snapshots.is_empty());
    assert!(!game.is_checked);
    assert!(game.game_events.is_empty());
}

#[test]
fn selecting_a_piece_keeps_its_legal_moves() {
    let mut game = Game::new();
    game.select(pos(4, 6));
    assert_eq!(
        game.legal_moves,
        Some(vec![
            Move::Normal(NormalMove::new(pos(4, 6), pos(4, 5))),
            Move::DoublePawn(DoublePawnMove::new(pos(4, 6), pos(4, 4))),
        ])
    );
    assert_eq!(game.current_player, Player::White);
    assert_eq!(game.board, Board::new());
}

#[test]
fn selecting_a_shut_in_piece_keeps_an_empty_list() {
    let mut game = Game::new();
    game.select(pos(0, 7));
    assert_eq!(game.legal_moves, Some(vec![]));
}

#[test]
fn selecting_an_empty_square_or_the_opponent_changes_nothing() {
    let mut game = Game::new();
    game.select(pos(4, 4));
    assert!(game.legal_moves.is_none());
    game.select(pos(4, 1));
    assert!(game.legal_moves.is_none());
    game.click(pos(3, 0));
    assert!(game.legal_moves.is_none());
    assert_eq!(game.board, Board::new());
}

#[test]
fn a_click_on_a_destination_makes_the_move() {
    let mut game = Game::new();
    game.click(pos(6, 7));
    game.click(pos(5, 5));
    assert!(game.board.is_empty(pos(6, 7)));
    assert_eq!(game.board.get(pos(5, 5)), Some(Piece::Knight(Knight::new(Player::White))));
    assert_eq!(game.current_player, Player::Black);
    assert!(game.legal_moves.is_none());
    assert_eq!(game.fifty_move_rule, 1);
    assert_eq!(game.game_events, vec![GameEvent::CheckForGameEnd]);
    assert_eq!(game.modals, None);
}

#[test]
fn a_click_elsewhere_keeps_the_selection() {
    let mut game = Game::new();
    game.click(pos(6, 7));
    let kept = game.legal_moves.clone();
    game.click(pos(4, 4));
    assert_eq!(game.legal_moves, kept);
    assert_eq!(game.current_player, Player::White);
    assert_eq!(game.board, Board::new());
    assert!(game.game_events.is_empty());
}

#[test]
fn the_right_button_drops_the_selection() {
    let mut game = Game::new();
    game.click(pos(6, 7));
    assert!(game.legal_moves.is_some());
    game.press(Press { square: None, button: MouseButton::Right });
    assert!(game.legal_moves.is_none());
    assert_eq!(game.current_player, Player::White);

    game.deselect();
    assert!(game.legal_moves.is_none());
}

#[test]
fn the_right_button_on_a_piece_selects_it_anew() {
    let mut game = Game::new();
    game.click(pos(6, 7));
    game.press(Press { square: Some(pos(1, 7)), button: MouseButton::Right });
    assert_eq!(
        game.legal_moves,
        Some(vec![
            Move::Normal(NormalMove::new(pos(1, 7), pos(2, 5))),
            Move::Normal(NormalMove::new(pos(1, 7), pos(0, 5))),
        ])
    );
}

#[test]
fn a_press_off_the_board_is_ignored() {
    let mut game = Game::new();
    game.press(Press { square: Some(pos(8, 3)), button: MouseButton::Left });
    game.press(Press { square: None, button: MouseButton::Middle });
    game.press(Press { square: Some(pos(-1, 0)), button: MouseButton::Other(7) });
    assert!(game.legal_moves.is_none());
    assert_eq!(game.board, Board::new());
    assert!(game.game_events.is_empty());
}

#[test]
fn a_pawn_move_resets_the_count() {
    let mut game = Game::new();
    play(&mut game, (6, 7), (5, 5));
    play(&mut game, (6, 0), (5, 2));
    assert_eq!(game.fifty_move_rule, 2);
    play(&mut game, (4, 6), (4, 4));
    assert_eq!(game.fifty_move_rule, 0);
    play(&mut game, (1, 0), (2, 2));
    assert_eq!(game.fifty_move_rule, 1);
}

#[test]
fn a_capture_resets_the_count() {
    let mut board = Board::default();
    board.set(pos(4, 7), Some(moved_king(Player::White)));
    board.set(pos(4, 0), Some(moved_king(Player::Black)));
    board.set(pos(0, 7), Some(Piece::Queen(Queen::new(Player::White))));
    board.set(pos(0, 1), Some(Piece::Rook(Rook::new(Player::Black))));
    board.set(pos(7, 6), Some(Piece::Rook(Rook::new(Player::White))));
    let mut game = game_on(board, Player::White);
    game.fifty_move_rule = 57;
    game.commit(Move::Normal(NormalMove::new(pos(7, 6), pos(7, 5))));
    assert_eq!(game.fifty_move_rule, 58);
    game.commit(Move::Normal(NormalMove::new(pos(4, 0), pos(3, 0))));
    assert_eq!(game.fifty_move_rule, 59);
    game.commit(Move::Normal(NormalMove::new(pos(0, 7), pos(0, 1))));
    assert_eq!(game.fifty_move_rule, 0);
}

#[test]
fn a_hundred_quiet_moves_end_the_game() {
    let mut game = Game::new();
    let round = [
        ((6, 7), (5, 5)),
        ((6, 0), (5, 2)),
        ((5, 5), (6, 7)),
        ((5, 2), (6, 0)),
    ];
    for half_move in 0..100 {
        let (from, to) = round[half_move % 4];
        assert_eq!(game.fifty_move_rule as usize, half_move);
        game.commit(Move::Normal(NormalMove::new(pos(from.0, from.1), pos(to.0, to.1))));
        if half_move == 98 {
            game.check_for_game_end();
            assert_eq!(game.fifty_move_rule, 99);
            assert_eq!(game.modals, None);
        }
    }
    assert_eq!(game.fifty_move_rule, 100);
    game.check_for_game_end();
    assert_eq!(game.modals, Some(ModalKind::Endgame(EndType::FiftyMoveRule)));
}

#[test]
fn the_third_occurrence_of_a_position_ends_the_game() {
    let mut game = Game::new();
    let round = [
        ((6, 7), (5, 5)),
        ((6, 0), (5, 2)),
        ((5, 5), (6, 7)),
        ((5, 2), (6, 0)),
    ];
    // the position after the first move comes up again after the fifth
    // and the ninth
    for half_move in 0..8 {
        let (from, to) = round[half_move % 4];
        play(&mut game, from, to);
        assert_eq!(game.modals, None);
    }
    let after_first = {
        let mut board = Board::new();
        Move::Normal(NormalMove::new(pos(6, 7), pos(5, 5))).execute(&mut board);
        board.get_snapshot()
    };
    assert_eq!(game.snapshots.get(after_first.as_str()), Some(&2));
    assert_eq!(game.snapshots.get(Board::new().get_snapshot().as_str()), Some(&2));
    play(&mut game, (6, 7), (5, 5));
    assert_eq!(game.snapshots.get(after_first.as_str()), Some(&3));
    assert_eq!(game.modals, Some(ModalKind::Endgame(EndType::Repetition)));
}

#[test]
fn lost_castling_makes_another_position() {
    let mut board = Board::new();
    let before = board.get_snapshot();
    // the king's rook goes out and comes back
    board.set(pos(7, 6), None);
    let open = board.get_snapshot();
    Move::Normal(NormalMove::new(pos(7, 7), pos(7, 5))).execute(&mut board);
    Move::Normal(NormalMove::new(pos(7, 5), pos(7, 7))).execute(&mut board);
    assert_ne!(board.get_snapshot(), open);
    assert_ne!(board.get_snapshot(), before);
    assert_eq!(&board.get_snapshot()[..64], &open[..64]);
}

#[test]
fn fools_mate_is_checkmate() {
    let mut game = Game::new();
    play(&mut game, (5, 6), (5, 5));
    play(&mut game, (4, 1), (4, 3));
    play(&mut game, (6, 6), (6, 4));
    assert_eq!(game.modals, None);
    assert!(!game.is_checked);
    play(&mut game, (3, 0), (7, 4));
    assert!(game.is_checked);
    assert_eq!(game.current_player, Player::White);
    assert!(game.is_checkmate_or_stalemate());
    assert_eq!(game.modals, Some(ModalKind::Endgame(EndType::Checkmate(Player::Black))));
}

#[test]
fn check_that_can_be_met_is_no_mate() {
    let mut game = Game::new();
    play(&mut game, (4, 6), (4, 4));
    play(&mut game, (5, 1), (5, 2));
    play(&mut game, (3, 7), (7, 3));
    assert!(game.is_checked);
    assert_eq!(game.current_player, Player::Black);
    assert!(!game.is_checkmate_or_stalemate());
    assert_eq!(game.modals, None);
    // the only way out is to put the pawn in between
    let mut app_events = Vec::new();
    game.update(left(6, 1), None, &mut app_events);
    assert_eq!(
        game.legal_moves,
        Some(vec![Move::Normal(NormalMove::new(pos(6, 1), pos(6, 2)))])
    );
}

#[test]
fn stalemate_is_not_checkmate() {
    let mut board = Board::default();
    board.set(pos(0, 0), Some(moved_king(Player::Black)));
    board.set(pos(1, 2), Some(Piece::Queen(Queen::new(Player::White))));
    board.set(pos(7, 7), Some(moved_king(Player::White)));
    let mut game = game_on(board, Player::Black);
    assert!(!game.board.get_check(Player::Black));
    assert!(game.is_checkmate_or_stalemate());
    game.check_for_game_end();
    assert!(!game.is_checked);
    assert_eq!(game.modals, Some(ModalKind::Endgame(EndType::Stalemate)));
}

#[test]
fn mate_in_the_corner_is_checkmate() {
    let mut board = Board::default();
    board.set(pos(0, 0), Some(moved_king(Player::Black)));
    board.set(pos(1, 1), Some(Piece::Queen(Queen::new(Player::White))));
    board.set(pos(2, 2), Some(moved_king(Player::White)));
    let mut game = game_on(board, Player::Black);
    game.check_for_game_end();
    assert!(game.is_checked);
    assert_eq!(game.modals, Some(ModalKind::Endgame(EndType::Checkmate(Player::White))));
}

#[test]
fn the_starting_position_is_no_ending() {
    let mut game = Game::new();
    assert!(!game.is_checkmate_or_stalemate());
    assert!(!game.is_insufficient_material());
    game.check_for_game_end();
    assert_eq!(game.modals, None);
    assert!(!game.is_checked);
    assert_eq!(game.snapshots.get(Board::new().get_snapshot().as_str()), Some(&1));
}

#[test]
fn counting_the_starting_position() {
    let game = Game::new();
    let pieces = game.get_total_pieces();
    assert_eq!(pieces.total_pieces, 32);
    for tally in [pieces.white_pieces, pieces.black_pieces] {
        assert_eq!(tally.get(PieceType::Pawn), Some(8));
        assert_eq!(tally.get(PieceType::Knight), Some(2));
        assert_eq!(tally.get(PieceType::Bishop), Some(2));
        assert_eq!(tally.get(PieceType::Rook), Some(2));
        assert_eq!(tally.get(PieceType::Queen), Some(1));
        assert_eq!(tally.get(PieceType::King), Some(1));
    }
}

#[test]
fn counting_the_test_board() {
    let game = game_on(Board::test_board(), Player::White);
    let pieces = game.get_total_pieces();
    assert_eq!(pieces.total_pieces, 4);
    assert_eq!(pieces.white_pieces.get(PieceType::Knight), Some(1));
    assert_eq!(pieces.black_pieces.get(PieceType::Knight), Some(1));
    assert_eq!(pieces.white_pieces.get(PieceType::Bishop), None);
    assert!(!game.is_king_v_king(pieces));
    assert!(!game.is_king_v_king_knight(pieces));
    assert!(!game.is_king_v_king_bishop(pieces));
    assert!(!game.is_king_bishop_v_king_bishop(pieces));
    assert!(!game.is_insufficient_material());
}

fn kings() -> Board {
    let mut board = Board::default();
    board.set(pos(4, 7), Some(moved_king(Player::White)));
    board.set(pos(4, 0), Some(moved_king(Player::Black)));
    board
}

#[test]
fn bare_kings_cannot_win() {
    let game = game_on(kings(), Player::White);
    let pieces = game.get_total_pieces();
    assert!(game.is_king_v_king(pieces));
    assert!(game.is_insufficient_material());
}

#[test]
fn a_lone_knight_or_bishop_cannot_win() {
    let mut board = kings();
    board.set(pos(2, 2), Some(Piece::Knight(Knight::new(Player::Black))));
    let game = game_on(board, Player::White);
    assert!(game.is_king_v_king_knight(game.get_total_pieces()));
    assert!(!game.is_king_v_king_bishop(game.get_total_pieces()));
    assert!(game.is_insufficient_material());

    let mut board = kings();
    board.set(pos(2, 2), Some(Piece::Bishop(Bishop::new(Player::White))));
    let game = game_on(board, Player::White);
    assert!(game.is_king_v_king_bishop(game.get_total_pieces()));
    assert!(!game.is_king_v_king_knight(game.get_total_pieces()));
    assert!(game.is_insufficient_material());
}

#[test]
fn a_lone_rook_or_pawn_can_win() {
    let mut board = kings();
    board.set(pos(2, 2), Some(Piece::Rook(Rook::new(Player::White))));
    assert!(!game_on(board, Player::White).is_insufficient_material());
    let mut board = kings();
    board.set(pos(2, 2), Some(moved_pawn(Player::Black)));
    assert!(!game_on(board, Player::White).is_insufficient_material());
}

#[test]
fn bishops_on_squares_of_unlike_colour_are_a_draw() {
    let mut board = kings();
    board.set(pos(2, 7), Some(Piece::Bishop(Bishop::new(Player::White))));
    board.set(pos(2, 0), Some(Piece::Bishop(Bishop::new(Player::Black))));
    assert_ne!(pos(2, 7).square_color(), pos(2, 0).square_color());
    let game = game_on(board, Player::White);
    assert!(game.is_king_bishop_v_king_bishop(game.get_total_pieces()));
    assert!(game.is_insufficient_material());
}

#[test]
fn bishops_on_squares_of_like_colour_are_no_draw() {
    let mut board = kings();
    board.set(pos(2, 7), Some(Piece::Bishop(Bishop::new(Player::White))));
    board.set(pos(5, 0), Some(Piece::Bishop(Bishop::new(Player::Black))));
    assert_eq!(pos(2, 7).square_color(), pos(5, 0).square_color());
    let game = game_on(board, Player::White);
    assert!(!game.is_king_bishop_v_king_bishop(game.get_total_pieces()));
    assert!(!game.is_insufficient_material());
}

#[test]
fn two_bishops_of_one_player_are_no_draw() {
    let mut board = kings();
    board.set(pos(2, 7), Some(Piece::Bishop(Bishop::new(Player::White))));
    board.set(pos(2, 0), Some(Piece::Bishop(Bishop::new(Player::White))));
    let game = game_on(board, Player::White);
    assert!(!game.is_insufficient_material());
}

#[test]
fn insufficient_material_ends_the_game() {
    let mut game = game_on(kings(), Player::Black);
    game.check_for_game_end();
    assert_eq!(game.modals, Some(ModalKind::Endgame(EndType::InsufficientMaterial)));
}

#[test]
fn the_fifty_move_rule_goes_before_the_other_endings() {
    let mut game = game_on(kings(), Player::Black);
    game.fifty_move_rule = 100;
    game.check_for_game_end();
    assert_eq!(game.modals, Some(ModalKind::Endgame(EndType::FiftyMoveRule)));
}

#[test]
fn a_promotion_asks_for_a_piece() {
    let mut board = kings();
    board.set(pos(0, 1), Some(moved_pawn(Player::White)));
    let mut game = game_on(board, Player::White);
    let mut app_events = Vec::new();
    game.update(left(0, 1), None, &mut app_events);
    game.update(left(0, 0), None, &mut app_events);
    assert_eq!(game.modals, Some(ModalKind::PawnPromotion(pos(0, 0))));
    assert_eq!(game.current_player, Player::Black);
    assert_eq!(game.board.get(pos(0, 0)), Some(moved_pawn(Player::White)));

    // while the question is open the board takes no input
    game.update(left(4, 0), None, &mut app_events);
    assert!(game.legal_moves.is_none());
    assert_eq!(game.game_events, vec![GameEvent::CheckForGameEnd]);

    game.update(
        left(1, 1),
        Some(GameEvent::ChoosePiece(PieceType::Queen, pos(0, 0))),
        &mut app_events,
    );
    assert_eq!(game.modals, None);
    assert_eq!(
        game.game_events,
        vec![
            GameEvent::CheckForGameEnd,
            GameEvent::ChoosePiece(PieceType::Queen, pos(0, 0)),
        ]
    );
    game.update(None, None, &mut app_events);
    assert_eq!(game.board.get(pos(0, 0)), Some(Piece::Queen(Queen::new(Player::White))));
    assert_eq!(game.game_events, vec![GameEvent::CheckForGameEnd]);
    game.update(None, None, &mut app_events);
    assert!(game.game_events.is_empty());
    assert!(game.is_checked);
    assert_eq!(game.modals, None);
    assert!(app_events.is_empty());
}

#[test]
fn promote_puts_each_kind() {
    for (kind, piece) in [
        (PieceType::Knight, Piece::Knight(Knight::new(Player::Black))),
        (PieceType::Bishop, Piece::Bishop(Bishop::new(Player::Black))),
        (PieceType::Rook, Piece::Rook(Rook::new(Player::Black))),
        (PieceType::Queen, Piece::Queen(Queen::new(Player::Black))),
    ] {
        let mut board = kings();
        board.set(pos(3, 7), Some(moved_pawn(Player::Black)));
        let mut game = game_on(board, Player::White);
        game.modals = Some(ModalKind::PawnPromotion(pos(3, 7)));
        game.promote(kind, pos(3, 7));
        assert_eq!(game.board.get(pos(3, 7)), Some(piece));
        assert_eq!(game.modals, None);
        assert_eq!(game.game_events, vec![GameEvent::CheckForGameEnd]);
    }
}

#[test]
fn answers_to_the_ending_reach_the_program() {
    let mut game = game_on(kings(), Player::White);
    let mut app_events = Vec::new();
    game.game_events.push(GameEvent::CheckForGameEnd);
    game.update(None, None, &mut app_events);
    assert_eq!(game.modals, Some(ModalKind::Endgame(EndType::InsufficientMaterial)));
    game.update(None, None, &mut app_events);
    assert_eq!(game.modals, Some(ModalKind::Endgame(EndType::InsufficientMaterial)));
    game.update(left(0, 0), Some(GameEvent::Replay), &mut app_events);
    assert_eq!(game.modals, None);
    assert!(app_events.is_empty());
    game.update(None, None, &mut app_events);
    assert_eq!(app_events, vec![AppEvent::OpenNewGame]);

    let mut game = game_on(kings(), Player::White);
    game.modals = Some(ModalKind::Endgame(EndType::Stalemate));
    let mut app_events = vec![AppEvent::OpenNewGame];
    game.update(left(0, 0), Some(GameEvent::Exit), &mut app_events);
    game.update(None, None, &mut app_events);
    assert_eq!(app_events, vec![AppEvent::OpenNewGame, AppEvent::OpenMainMenu]);
}

#[test]
fn handle_event_by_kind() {
    let mut game = Game::new();
    let mut app_events = Vec::new();
    game.handle_event(GameEvent::Exit, &mut app_events);
    game.handle_event(GameEvent::Replay, &mut app_events);
    assert_eq!(app_events, vec![AppEvent::OpenMainMenu, AppEvent::OpenNewGame]);
    assert_eq!(game.board, Board::new());
    game.handle_event(GameEvent::CheckForGameEnd, &mut app_events);
    assert_eq!(game.snapshots.len(), 1);
    assert_eq!(app_events.len(), 2);
}

#[test]
fn castling_through_the_game() {
    let mut board = Board::default();
    board.set(pos(4, 7), Some(Piece::King(King::new(Player::White))));
    board.set(pos(7, 7), Some(Piece::Rook(Rook::new(Player::White))));
    board.set(pos(4, 0), Some(Piece::King(King::new(Player::Black))));
    board.set(pos(0, 1), Some(Piece::Pawn(Pawn::new(Player::Black))));
    let mut game = game_on(board, Player::White);
    let mut app_events = Vec::new();
    game.update(left(4, 7), None, &mut app_events);
    let moves = game.legal_moves.clone().unwrap();
    assert!(moves.contains(&Move::Castle(CastleMove::new(pos(4, 7), pos(6, 7)))));
    game.update(left(6, 7), None, &mut app_events);
    assert_eq!(game.board.get(pos(6, 7)), Some(moved_king(Player::White)));
    assert!(game.board.is_empty(pos(7, 7)));
    assert!(game.board.is_empty(pos(4, 7)));
    assert_eq!(game.board.get(pos(5, 7)).unwrap().get_piece_type(), PieceType::Rook);
    assert!(game.board.get(pos(5, 7)).unwrap().get_has_moved());
    assert_eq!(game.fifty_move_rule, 1);
    assert!(game.board.get_snapshot().ends_with("eeee"));
}

#[test]
fn en_passant_through_the_game() {
    let mut game = Game::new();
    play(&mut game, (4, 6), (4, 4));
    play(&mut game, (0, 1), (0, 2));
    play(&mut game, (4, 4), (4, 3));
    play(&mut game, (3, 1), (3, 3));
    assert_eq!(game.board.en_passant, Some(pos(3, 2)));
    play(&mut game, (4, 3), (3, 2));
    assert!(game.board.is_empty(pos(3, 3)));
    assert!(game.board.is_empty(pos(4, 3)));
    assert_eq!(game.board.get(pos(3, 2)), Some(moved_pawn(Player::White)));
    assert_eq!(game.board.en_passant, None);
    assert_eq!(game.fifty_move_rule, 0);
}

#[test]
fn en_passant_lasts_one_move() {
    let mut game = Game::new();
    play(&mut game, (4, 6), (4, 4));
    play(&mut game, (0, 1), (0, 2));
    play(&mut game, (4, 4), (4, 3));
    play(&mut game, (3, 1), (3, 3));
    play(&mut game, (6, 7), (5, 5));
    assert_eq!(game.board.en_passant, None);
    play(&mut game, (0, 2), (0, 3));
    let mut app_events = Vec::new();
    game.update(left(4, 3), None, &mut app_events);
    assert_eq!(
        game.legal_moves,
        Some(vec![Move::Normal(NormalMove::new(pos(4, 3), pos(4, 2)))])
    );
}

#[test]
fn can_update_in_ordinary_play() {
    let mut game = Game::new();
    assert!(game.can_update(None));
    assert!(game.can_update(left(4, 6)));
    play(&mut game, (4, 6), (4, 4));
    assert!(game.can_update(left(4, 1)));
    game.game_events.push(GameEvent::CheckForGameEnd);
    game.game_events.push(GameEvent::Replay);
    game.game_events.push(GameEvent::CheckForGameEnd);
    assert!(game.can_update(None));
}

#[test]
fn can_update_refuses_a_choice_without_a_pawn() {
    let mut game = Game::new();
    game.game_events.push(GameEvent::ChoosePiece(PieceType::Queen, pos(4, 4)));
    assert!(!game.can_update(None));

    let mut game = Game::new();
    game.game_events.push(GameEvent::ChoosePiece(PieceType::Queen, pos(4, 8)));
    assert!(!game.can_update(None));

    let mut game = Game::new();
    game.game_events.push(GameEvent::ChoosePiece(PieceType::King, pos(4, 6)));
    assert!(!game.can_update(None));
    game.modals = Some(ModalKind::PawnPromotion(pos(4, 6)));
    assert!(game.can_update(None));

    let mut game = Game::new();
    game.game_events.push(GameEvent::ChoosePiece(PieceType::Knight, pos(4, 6)));
    assert!(game.can_update(None));
}

#[test]
fn can_update_refuses_counts_without_room() {
    let mut game = Game::new();
    game.fifty_move_rule = 255;
    assert!(game.can_update(left(4, 6)));
    game.select(pos(4, 6));
    assert!(!game.can_update(left(4, 5)));
    assert!(game.can_update(left(3, 3)));
    assert!(game.can_update(Some(Press { square: Some(pos(4, 5)), button: MouseButton::Right })));
    assert!(!game.can_press(Press { square: Some(pos(4, 5)), button: MouseButton::Left }));

    let mut game = Game::new();
    game.snapshots.insert(Board::new().get_snapshot(), 253);
    game.game_events.push(GameEvent::CheckForGameEnd);
    game.game_events.push(GameEvent::CheckForGameEnd);
    assert!(game.can_update(None));
    game.game_events.push(GameEvent::CheckForGameEnd);
    assert!(!game.can_update(None));
    // a choice of piece in between makes another position
    game.game_events.insert(2, GameEvent::ChoosePiece(PieceType::Queen, pos(0, 6)));
    assert!(game.can_update(None));
}

#[test]
fn the_right_button_with_nothing_selected_changes_nothing() {
    let mut game = Game::new();
    let mut app_events = Vec::new();
    game.update(
        Some(Press { square: None, button: MouseButton::Right }),
        None,
        &mut app_events,
    );
    assert!(game.legal_moves.is_none());
    assert_eq!(game.board, Board::new());
    assert_eq!(game.current_player, Player::White);
    assert!(game.game_events.is_empty());
    assert!(app_events.is_empty());
}

#[test]
fn highlights_tell_captures_from_quiet_moves() {
    let mut board = kings();
    board.set(pos(0, 7), Some(Piece::Rook(Rook::new(Player::White))));
    board.set(pos(0, 5), Some(Piece::Knight(Knight::new(Player::Black))));
    let mut game = game_on(board, Player::White);
    assert_eq!(game.get_highlights(), vec![]);
    game.select(pos(0, 7));
    assert_eq!(
        game.get_highlights(),
        vec![
            Highlight { position: pos(0, 6), capture: false },
            Highlight { position: pos(0, 5), capture: true },
            Highlight { position: pos(1, 7), capture: false },
            Highlight { position: pos(2, 7), capture: false },
            Highlight { position: pos(3, 7), capture: false },
        ]
    );
}

#[test]
fn the_checked_king_is_found() {
    let mut board = kings();
    board.set(pos(4, 3), Some(Piece::Rook(Rook::new(Player::Black))));
    let mut game = game_on(board, Player::White);
    assert_eq!(game.get_checked_king(), None);
    game.check_for_game_end();
    assert!(game.is_checked);
    assert_eq!(game.get_checked_king(), Some(pos(4, 7)));
}

#[test]
fn endings_in_words() {
    assert_eq!(EndType::Checkmate(Player::White).message(), "White Won by checkmate");
    assert_eq!(EndType::Checkmate(Player::Black).message(), "Black Won by checkmate");
    assert_eq!(EndType::Stalemate.message(), "Draw by Stalemate");
    assert_eq!(EndType::InsufficientMaterial.message(), "Draw by Insufficient Material");
    assert_eq!(EndType::Repetition.message(), "Draw by Repetition");
    assert_eq!(EndType::FiftyMoveRule.message(), "Draw by 50 Move Rule");
}

#[test]
fn names_of_the_pictures() {
    assert_eq!(Piece::Pawn(Pawn::new(Player::White)).asset_name(), "whitepawn");
    assert_eq!(Piece::Knight(Knight::new(Player::Black)).asset_name(), "blackknight");
    assert_eq!(Piece::Bishop(Bishop::new(Player::White)).asset_name(), "whitebishop");
    assert_eq!(Piece::Rook(Rook::new(Player::Black)).asset_name(), "blackrook");
    assert_eq!(Piece::Queen(Queen::new(Player::White)).asset_name(), "whitequeen");
    assert_eq!(Piece::King(King::new(Player::Black)).asset_name(), "blackking");
}

#[test]
fn promoted_piece_by_kind() {
    assert_eq!(
        Game::promoted_piece(PieceType::Rook, Player::White),
        Some(Piece::Rook(Rook::new(Player::White)))
    );
    assert_eq!(Game::promoted_piece(PieceType::King, Player::White), None);
    assert_eq!(Game::promoted_piece(PieceType::Pawn, Player::Black), None);
}

#[test]
fn the_second_occurrence_is_no_repetition() {
    let mut game = Game::new();
    game.check_for_game_end();
    game.check_for_game_end();
    assert_eq!(game.modals, None);
    game.check_for_game_end();
    assert_eq!(game.modals, Some(ModalKind::Endgame(EndType::Repetition)));
    game.modals = None;
    game.check_for_game_end();
    assert_eq!(game.modals, None);
    assert_eq!(game.snapshots.get(Board::new().get_snapshot().as_str()), Some(&4));
}
