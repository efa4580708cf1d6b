use chess_rules::game::board::Board;
use chess_rules::game::direction::Direction;
use chess_rules::game::piece::bishop::Bishop;
use chess_rules::game::piece::king::King;
use chess_rules::game::piece::knight::Knight;
use chess_rules::game::piece::pawn::Pawn;
use chess_rules::game::piece::queen::Queen;
use chess_rules::game::piece::rook::Rook;
use chess_rules::game::piece::{ChessPiece, Piece, Player};
use chess_rules::game::piece_move::castle_move::CastleMove;
use chess_rules::game::piece_move::double_pawn_move::DoublePawnMove;
use chess_rules::game::piece_move::en_passant_move::EnPassantMove;
use chess_rules::game::piece_move::normal_move::NormalMove;
use chess_rules::game::piece_move::pawn_promotion_move::PawnPromotionMove;
use chess_rules::game::piece_move::{ChessMove, Move};
use chess_rules::game::position::Position;

fn pos(column: i32, row: i32) -> Position {
    Position::new(column, row)
}

fn normal(from: (i32, i32), to: (i32, i32)) -> Move {
    Move::Normal(NormalMove::new(pos(from.0, from.1), pos(to.0, to.1)))
}

fn normals(from: (i32, i32), to: &[(i32, i32)]) -> Vec<Move> {
    to.iter().map(|&target| normal(from, target)).collect()
}

fn moved_pawn(player: Player) -> Piece {
    let mut pawn = Pawn::new(player);
    pawn.has_moved = true;
    Piece::Pawn(pawn)
}

#[test]
fn rook_rays_on_an_open_board() {
    let mut board = Board::default();
    let rook = Rook::new(Player::White);
    board.set(pos(3, 3), Some(Piece::Rook(rook)));
    let expected = normals(
        (3, 3),
        &[
            (3, 2), (3, 1), (3, 0),
            (3, 4), (3, 5), (3, 6), (3, 7),
            (4, 3), (5, 3), (6, 3), (7, 3),
            (2, 3), (1, 3), (0, 3),
        ],
    );
    assert_eq!(rook.get_moves(pos(3, 3), &board), expected);
    assert_eq!(Piece::Rook(rook).get_moves(pos(3, 3), &board), expected);
}

#[test]
fn bishop_rays_on_an_open_board() {
    let mut board = Board::default();
    let bishop = Bishop::new(Player::Black);
    board.set(pos(3, 3), Some(Piece::Bishop(bishop)));
    let expected = normals(
        (3, 3),
        &[
            (4, 2), (5, 1), (6, 0),
            (2, 2), (1, 1), (0, 0),
            (4, 4), (5, 5), (6, 6), (7, 7),
            (2, 4), (1, 5), (0, 6),
        ],
    );
    assert_eq!(bishop.get_moves(pos(3, 3), &board), expected);
}

#[test]
fn queen_has_both_kinds_of_rays() {
    let mut board = Board::default();
    let queen = Queen::new(Player::White);
    board.set(pos(0, 0), Some(Piece::Queen(queen)));
    let moves = queen.get_moves(pos(0, 0), &board);
    assert_eq!(moves.len(), 21);
    let expected_first = normals((0, 0), &[(0, 1), (0, 2), (0, 3), (0, 4), (0, 5), (0, 6), (0, 7)]);
    assert_eq!(&moves[..7], &expected_first[..]);
    assert!(moves.contains(&normal((0, 0), (7, 7))));
    assert!(moves.contains(&normal((0, 0), (7, 0))));
}

#[test]
fn ray_stops_before_own_piece_and_on_enemy_piece() {
    let mut board = Board::default();
    let rook = Rook::new(Player::White);
    board.set(pos(3, 3), Some(Piece::Rook(rook)));
    board.set(pos(3, 1), Some(Piece::Pawn(Pawn::new(Player::White))));
    board.set(pos(5, 3), Some(Piece::Pawn(Pawn::new(Player::Black))));
    assert_eq!(
        rook.get_moves_in_direction(pos(3, 3), &board, Direction::north()),
        normals((3, 3), &[(3, 2)])
    );
    assert_eq!(
        rook.get_moves_in_direction(pos(3, 3), &board, Direction::east()),
        normals((3, 3), &[(4, 3), (5, 3)])
    );
    assert_eq!(
        rook.get_moves_in_direction(pos(3, 3), &board, Direction::west()),
        normals((3, 3), &[(2, 3), (1, 3), (0, 3)])
    );
}

#[test]
fn ray_next_to_a_piece() {
    let mut board = Board::default();
    let queen = Queen::new(Player::Black);
    board.set(pos(3, 3), Some(Piece::Queen(queen)));
    board.set(pos(3, 4), Some(Piece::Pawn(Pawn::new(Player::Black))));
    board.set(pos(4, 3), Some(Piece::Pawn(Pawn::new(Player::White))));
    assert_eq!(queen.get_moves_in_direction(pos(3, 3), &board, Direction::south()), vec![]);
    assert_eq!(
        queen.get_moves_in_direction(pos(3, 3), &board, Direction::east()),
        normals((3, 3), &[(4, 3)])
    );
    let bishop = Bishop::new(Player::Black);
    assert_eq!(
        bishop.get_moves_in_direction(pos(7, 7), &board, Direction::south_east()),
        vec![]
    );
}

#[test]
fn sliding_pieces_are_shut_in_at_the_start() {
    let board = Board::new();
    assert_eq!(Rook::new(Player::White).get_moves(pos(0, 7), &board), vec![]);
    assert_eq!(Bishop::new(Player::White).get_moves(pos(2, 7), &board), vec![]);
    assert_eq!(Queen::new(Player::Black).get_moves(pos(3, 0), &board), vec![]);
    assert_eq!(King::new(Player::Black).get_moves(pos(4, 0), &board), vec![]);
}

#[test]
fn knight_leaps_in_order() {
    let mut board = Board::default();
    let knight = Knight::new(Player::White);
    board.set(pos(3, 3), Some(Piece::Knight(knight)));
    assert_eq!(
        knight.get_moves(pos(3, 3), &board),
        normals(
            (3, 3),
            &[(4, 1), (5, 2), (2, 1), (1, 2), (4, 5), (5, 4), (2, 5), (1, 4)]
        )
    );
}

#[test]
fn knight_in_the_corner_and_at_the_start() {
    let mut board = Board::default();
    let knight = Knight::new(Player::Black);
    board.set(pos(0, 0), Some(Piece::Knight(knight)));
    assert_eq!(knight.get_moves(pos(0, 0), &board), normals((0, 0), &[(1, 2), (2, 1)]));

    let start = Board::new();
    assert_eq!(
        Knight::new(Player::White).get_moves(pos(1, 7), &start),
        normals((1, 7), &[(2, 5), (0, 5)])
    );
}

#[test]
fn knight_takes_enemy_but_not_own() {
    let mut board = Board::default();
    let knight = Knight::new(Player::White);
    board.set(pos(0, 0), Some(Piece::Knight(knight)));
    board.set(pos(1, 2), Some(Piece::Pawn(Pawn::new(Player::White))));
    board.set(pos(2, 1), Some(Piece::Pawn(Pawn::new(Player::Black))));
    assert_eq!(knight.get_moves(pos(0, 0), &board), normals((0, 0), &[(2, 1)]));
}

#[test]
fn king_steps_in_order() {
    let mut board = Board::default();
    let mut king = King::new(Player::White);
    king.has_moved = true;
    board.set(pos(4, 4), Some(Piece::King(king)));
    assert_eq!(
        king.get_moves(pos(4, 4), &board),
        normals(
            (4, 4),
            &[(4, 3), (3, 3), (3, 4), (3, 5), (4, 5), (5, 5), (5, 4), (5, 3)]
        )
    );
    assert_eq!(
        king.get_moves_in_direction(pos(4, 4), &board, Direction::north_east()),
        normals((4, 4), &[(5, 3)])
    );
}

#[test]
fn king_step_onto_pieces() {
    let mut board = Board::default();
    let mut king = King::new(Player::Black);
    king.has_moved = true;
    board.set(pos(0, 0), Some(Piece::King(king)));
    board.set(pos(1, 0), Some(Piece::Pawn(Pawn::new(Player::Black))));
    board.set(pos(0, 1), Some(Piece::Pawn(Pawn::new(Player::White))));
    assert_eq!(king.get_moves(pos(0, 0), &board), normals((0, 0), &[(0, 1), (1, 1)]));
}

fn castling_board() -> Board {
    let mut board = Board::default();
    board.set(pos(4, 7), Some(Piece::King(King::new(Player::White))));
    board.set(pos(0, 7), Some(Piece::Rook(Rook::new(Player::White))));
    board.set(pos(7, 7), Some(Piece::Rook(Rook::new(Player::White))));
    board.set(pos(4, 0), Some(Piece::King(King::new(Player::Black))));
    board.set(pos(0, 0), Some(Piece::Rook(Rook::new(Player::Black))));
    board.set(pos(7, 0), Some(Piece::Rook(Rook::new(Player::Black))));
    board
}

fn castle(from: (i32, i32), to: (i32, i32)) -> Move {
    Move::Castle(CastleMove::new(pos(from.0, from.1), pos(to.0, to.1)))
}

#[test]
fn castling_is_offered_both_ways() {
    let board = castling_board();
    let white = King::new(Player::White).get_moves(pos(4, 7), &board);
    let mut expected = normals((4, 7), &[(4, 6), (3, 6), (3, 7), (5, 7), (5, 6)]);
    expected.push(castle((4, 7), (2, 7)));
    expected.push(castle((4, 7), (6, 7)));
    assert_eq!(white, expected);

    let black = King::new(Player::Black).get_moves(pos(4, 0), &board);
    let mut expected = normals((4, 0), &[(3, 0), (3, 1), (4, 1), (5, 1), (5, 0)]);
    expected.push(castle((4, 0), (2, 0)));
    expected.push(castle((4, 0), (6, 0)));
    assert_eq!(black, expected);
}

#[test]
fn no_castling_after_the_king_has_moved() {
    let mut board = castling_board();
    let mut king = King::new(Player::White);
    king.has_moved = true;
    board.set(pos(4, 7), Some(Piece::King(king)));
    let moves = king.get_moves(pos(4, 7), &board);
    assert_eq!(moves, normals((4, 7), &[(4, 6), (3, 6), (3, 7), (5, 7), (5, 6)]));
}

#[test]
fn no_castling_with_a_rook_that_has_moved() {
    let mut board = castling_board();
    let mut rook = Rook::new(Player::White);
    rook.has_moved = true;
    board.set(pos(7, 7), Some(Piece::Rook(rook)));
    let moves = King::new(Player::White).get_moves(pos(4, 7), &board);
    assert!(moves.contains(&castle((4, 7), (2, 7))));
    assert!(!moves.contains(&castle((4, 7), (6, 7))));
}

#[test]
fn no_castling_with_a_rook_of_the_other_colour_or_another_piece() {
    let mut board = castling_board();
    board.set(pos(7, 7), Some(Piece::Rook(Rook::new(Player::Black))));
    board.set(pos(0, 7), Some(Piece::Knight(Knight::new(Player::White))));
    let moves = King::new(Player::White).get_moves(pos(4, 7), &board);
    assert!(!moves.contains(&castle((4, 7), (2, 7))));
    assert!(!moves.contains(&castle((4, 7), (6, 7))));
}

#[test]
fn no_castling_through_pieces() {
    let mut board = castling_board();
    board.set(pos(1, 7), Some(Piece::Knight(Knight::new(Player::White))));
    board.set(pos(6, 7), Some(Piece::Knight(Knight::new(Player::Black))));
    let moves = King::new(Player::White).get_moves(pos(4, 7), &board);
    assert!(!moves.contains(&castle((4, 7), (2, 7))));
    assert!(!moves.contains(&castle((4, 7), (6, 7))));
    assert_eq!(moves.len(), 5);
}

#[test]
fn no_castling_through_check() {
    let mut board = castling_board();
    let mut rook = Rook::new(Player::Black);
    rook.has_moved = true;
    board.set(pos(3, 3), Some(Piece::Rook(rook)));
    let moves = King::new(Player::White).get_moves(pos(4, 7), &board);
    assert!(!moves.contains(&castle((4, 7), (2, 7))));
    assert!(moves.contains(&castle((4, 7), (6, 7))));
}

#[test]
fn castling_looks_only_at_the_square_passed() {
    // the king's own square and the square on which it lands are left to
    // the test of legal moves
    let mut board = castling_board();
    let mut rook = Rook::new(Player::Black);
    rook.has_moved = true;
    board.set(pos(6, 3), Some(Piece::Rook(rook)));
    let moves = King::new(Player::White).get_moves(pos(4, 7), &board);
    assert!(moves.contains(&castle((4, 7), (6, 7))));
    let legal = board.get_legal_moves(pos(4, 7));
    assert!(!legal.contains(&castle((4, 7), (6, 7))));
    assert!(legal.contains(&castle((4, 7), (2, 7))));
}

#[test]
fn unmoved_kings_facing_each_other_terminate() {
    let board = castling_board();
    assert!(!board.get_check(Player::White));
    assert!(!board.get_check(Player::Black));
}

#[test]
fn pawn_first_move() {
    let board = Board::new();
    assert_eq!(
        Pawn::new(Player::White).get_moves(pos(4, 6), &board),
        vec![
            normal((4, 6), (4, 5)),
            Move::DoublePawn(DoublePawnMove::new(pos(4, 6), pos(4, 4))),
        ]
    );
    assert_eq!(
        Pawn::new(Player::Black).get_moves(pos(0, 1), &board),
        vec![
            normal((0, 1), (0, 2)),
            Move::DoublePawn(DoublePawnMove::new(pos(0, 1), pos(0, 3))),
        ]
    );
}

#[test]
fn pawn_that_has_moved_steps_once() {
    let mut board = Board::default();
    board.set(pos(4, 5), Some(moved_pawn(Player::White)));
    let mut pawn = Pawn::new(Player::White);
    pawn.has_moved = true;
    assert_eq!(pawn.get_moves(pos(4, 5), &board), vec![normal((4, 5), (4, 4))]);
}

#[test]
fn blocked_pawn() {
    let mut board = Board::new();
    board.set(pos(4, 5), Some(Piece::Knight(Knight::new(Player::Black))));
    assert_eq!(Pawn::new(Player::White).get_moves(pos(4, 6), &board), vec![]);
    board.set(pos(4, 5), None);
    board.set(pos(4, 4), Some(Piece::Knight(Knight::new(Player::Black))));
    assert_eq!(
        Pawn::new(Player::White).get_moves(pos(4, 6), &board),
        vec![normal((4, 6), (4, 5))]
    );
}

#[test]
fn pawn_captures_diagonally() {
    let mut board = Board::new();
    board.set(pos(3, 5), Some(Piece::Knight(Knight::new(Player::Black))));
    board.set(pos(5, 5), Some(Piece::Knight(Knight::new(Player::Black))));
    assert_eq!(
        Pawn::new(Player::White).get_moves(pos(4, 6), &board),
        vec![
            normal((4, 6), (4, 5)),
            Move::DoublePawn(DoublePawnMove::new(pos(4, 6), pos(4, 4))),
            normal((4, 6), (3, 5)),
            normal((4, 6), (5, 5)),
        ]
    );
    board.set(pos(3, 5), Some(Piece::Knight(Knight::new(Player::White))));
    assert_eq!(
        Pawn::new(Player::White).get_moves(pos(4, 6), &board),
        vec![
            normal((4, 6), (4, 5)),
            Move::DoublePawn(DoublePawnMove::new(pos(4, 6), pos(4, 4))),
            normal((4, 6), (5, 5)),
        ]
    );
}

#[test]
fn pawn_on_the_edge() {
    let mut board = Board::default();
    board.set(pos(0, 4), Some(moved_pawn(Player::Black)));
    board.set(pos(1, 5), Some(Piece::Knight(Knight::new(Player::White))));
    let mut pawn = Pawn::new(Player::Black);
    pawn.has_moved = true;
    assert_eq!(
        pawn.get_moves(pos(0, 4), &board),
        vec![normal((0, 4), (0, 5)), normal((0, 4), (1, 5))]
    );
}

#[test]
fn capture_en_passant_is_offered() {
    let mut board = Board::default();
    board.set(pos(4, 3), Some(moved_pawn(Player::White)));
    board.set(pos(3, 3), Some(moved_pawn(Player::Black)));
    board.en_passant = Some(pos(3, 2));
    let mut pawn = Pawn::new(Player::White);
    pawn.has_moved = true;
    assert_eq!(
        pawn.get_moves(pos(4, 3), &board),
        vec![
            normal((4, 3), (4, 2)),
            Move::EnPassant(EnPassantMove::new(pos(4, 3), pos(3, 2))),
        ]
    );
    board.en_passant = Some(pos(6, 2));
    assert_eq!(pawn.get_moves(pos(4, 3), &board), vec![normal((4, 3), (4, 2))]);
    board.en_passant = None;
    assert_eq!(pawn.get_moves(pos(4, 3), &board), vec![normal((4, 3), (4, 2))]);
}

#[test]
fn pawn_moves_onto_the_last_row_are_promotions() {
    let mut board = Board::default();
    board.set(pos(1, 1), Some(moved_pawn(Player::White)));
    board.set(pos(2, 0), Some(Piece::Rook(Rook::new(Player::Black))));
    board.set(pos(0, 0), Some(Piece::Rook(Rook::new(Player::White))));
    let mut pawn = Pawn::new(Player::White);
    pawn.has_moved = true;
    assert_eq!(
        pawn.get_moves(pos(1, 1), &board),
        vec![
            Move::PawnPromotion(PawnPromotionMove::new(pos(1, 1), pos(1, 0))),
            Move::PawnPromotion(PawnPromotionMove::new(pos(1, 1), pos(2, 0))),
        ]
    );
    let mut black = Board::default();
    black.set(pos(6, 6), Some(moved_pawn(Player::Black)));
    let mut black_pawn = Pawn::new(Player::Black);
    black_pawn.has_moved = true;
    assert_eq!(
        black_pawn.get_moves(pos(6, 6), &black),
        vec![Move::PawnPromotion(PawnPromotionMove::new(pos(6, 6), pos(6, 7)))]
    );
}

#[test]
fn unmoved_pawn_facing_the_edge_has_no_move() {
    let mut board = Board::default();
    board.set(pos(3, 0), Some(Piece::Pawn(Pawn::new(Player::White))));
    assert_eq!(Pawn::new(Player::White).get_moves(pos(3, 0), &board), vec![]);
}

#[test]
fn normal_move_relocates_and_marks() {
    let mut board = Board::new();
    board.en_passant = Some(pos(0, 2));
    let piece_move = NormalMove::new(pos(4, 6), pos(4, 5));
    piece_move.execute(&mut board);
    assert!(board.is_empty(pos(4, 6)));
    assert_eq!(board.get(pos(4, 5)), Some(moved_pawn(Player::White)));
    assert_eq!(board.en_passant, None);
    assert_eq!(piece_move.get_from_pos(), pos(4, 6));
    assert_eq!(piece_move.get_to_pos(), pos(4, 5));
    assert!(!piece_move.is_pawn_promotion_move());
}

#[test]
fn normal_move_captures() {
    let mut board = Board::default();
    board.set(pos(0, 0), Some(Piece::Queen(Queen::new(Player::White))));
    board.set(pos(7, 7), Some(Piece::Rook(Rook::new(Player::Black))));
    Move::Normal(NormalMove::new(pos(0, 0), pos(7, 7))).execute(&mut board);
    assert!(board.is_empty(pos(0, 0)));
    assert_eq!(board.get(pos(7, 7)), Some(Piece::Queen(Queen::new(Player::White))));
}

#[test]
fn double_pawn_move_sets_the_en_passant_square() {
    let mut board = Board::new();
    let white = DoublePawnMove::new(pos(4, 6), pos(4, 4));
    white.execute(&mut board);
    assert_eq!(board.en_passant, Some(pos(4, 5)));
    assert!(board.is_empty(pos(4, 6)));
    assert_eq!(board.get(pos(4, 4)), Some(moved_pawn(Player::White)));

    let black = Move::DoublePawn(DoublePawnMove::new(pos(3, 1), pos(3, 3)));
    black.execute(&mut board);
    assert_eq!(board.en_passant, Some(pos(3, 2)));
    assert_eq!(board.get(pos(3, 3)), Some(moved_pawn(Player::Black)));
    assert!(!black.is_pawn_promotion_move());
}

#[test]
fn every_other_move_clears_the_en_passant_square() {
    let mut board = Board::new();
    DoublePawnMove::new(pos(4, 6), pos(4, 4)).execute(&mut board);
    assert!(board.en_passant.is_some());
    NormalMove::new(pos(1, 0), pos(2, 2)).execute(&mut board);
    assert_eq!(board.en_passant, None);

    let mut board = castling_board();
    board.en_passant = Some(pos(2, 2));
    CastleMove::new(pos(4, 7), pos(6, 7)).execute(&mut board);
    assert_eq!(board.en_passant, None);

    let mut board = Board::default();
    board.set(pos(1, 1), Some(moved_pawn(Player::White)));
    board.en_passant = Some(pos(2, 2));
    PawnPromotionMove::new(pos(1, 1), pos(1, 0)).execute(&mut board);
    assert_eq!(board.en_passant, None);

    let mut board = Board::default();
    board.set(pos(4, 3), Some(moved_pawn(Player::White)));
    board.set(pos(3, 3), Some(moved_pawn(Player::Black)));
    board.en_passant = Some(pos(3, 2));
    EnPassantMove::new(pos(4, 3), pos(3, 2)).execute(&mut board);
    assert_eq!(board.en_passant, None);
}

#[test]
fn en_passant_move_removes_the_passed_pawn() {
    let mut board = Board::default();
    board.set(pos(4, 3), Some(moved_pawn(Player::White)));
    board.set(pos(3, 3), Some(moved_pawn(Player::Black)));
    board.en_passant = Some(pos(3, 2));
    let piece_move = EnPassantMove::new(pos(4, 3), pos(3, 2));
    piece_move.execute(&mut board);
    assert!(board.is_empty(pos(4, 3)));
    assert!(board.is_empty(pos(3, 3)));
    assert_eq!(board.get(pos(3, 2)), Some(moved_pawn(Player::White)));
    assert!(!piece_move.is_pawn_promotion_move());

    let mut board = Board::default();
    board.set(pos(2, 4), Some(moved_pawn(Player::Black)));
    board.set(pos(3, 4), Some(moved_pawn(Player::White)));
    board.en_passant = Some(pos(3, 5));
    Move::EnPassant(EnPassantMove::new(pos(2, 4), pos(3, 5))).execute(&mut board);
    assert!(board.is_empty(pos(2, 4)));
    assert!(board.is_empty(pos(3, 4)));
    assert_eq!(board.get(pos(3, 5)), Some(moved_pawn(Player::Black)));
}

fn moved_king(player: Player) -> Piece {
    let mut king = King::new(player);
    king.has_moved = true;
    Piece::King(king)
}

fn moved_rook(player: Player) -> Piece {
    let mut rook = Rook::new(player);
    rook.has_moved = true;
    Piece::Rook(rook)
}

#[test]
fn castling_kingside_for_white() {
    let mut board = castling_board();
    let piece_move = CastleMove::new(pos(4, 7), pos(6, 7));
    piece_move.execute(&mut board);
    assert!(board.is_empty(pos(4, 7)));
    assert!(board.is_empty(pos(7, 7)));
    assert_eq!(board.get(pos(6, 7)), Some(moved_king(Player::White)));
    assert_eq!(board.get(pos(5, 7)), Some(moved_rook(Player::White)));
    assert_eq!(board.get(pos(0, 7)), Some(Piece::Rook(Rook::new(Player::White))));
    assert!(!piece_move.is_pawn_promotion_move());
}

#[test]
fn castling_queenside_for_white() {
    let mut board = castling_board();
    Move::Castle(CastleMove::new(pos(4, 7), pos(2, 7))).execute(&mut board);
    assert!(board.is_empty(pos(4, 7)));
    assert!(board.is_empty(pos(0, 7)));
    assert!(board.is_empty(pos(1, 7)));
    assert_eq!(board.get(pos(2, 7)), Some(moved_king(Player::White)));
    assert_eq!(board.get(pos(3, 7)), Some(moved_rook(Player::White)));
    assert_eq!(board.get(pos(7, 7)), Some(Piece::Rook(Rook::new(Player::White))));
}

#[test]
fn castling_for_black() {
    let mut board = castling_board();
    CastleMove::new(pos(4, 0), pos(6, 0)).execute(&mut board);
    assert_eq!(board.get(pos(6, 0)), Some(moved_king(Player::Black)));
    assert_eq!(board.get(pos(5, 0)), Some(moved_rook(Player::Black)));
    assert!(board.is_empty(pos(7, 0)));
    assert!(board.is_empty(pos(4, 0)));

    let mut board = castling_board();
    CastleMove::new(pos(4, 0), pos(2, 0)).execute(&mut board);
    assert_eq!(board.get(pos(2, 0)), Some(moved_king(Player::Black)));
    assert_eq!(board.get(pos(3, 0)), Some(moved_rook(Player::Black)));
    assert!(board.is_empty(pos(0, 0)));
    assert!(board.is_empty(pos(4, 0)));
}

#[test]
fn promotion_move_relocates_the_pawn() {
    let mut board = Board::default();
    board.set(pos(1, 1), Some(moved_pawn(Player::White)));
    board.set(pos(2, 0), Some(Piece::Rook(Rook::new(Player::Black))));
    let piece_move = PawnPromotionMove::new(pos(1, 1), pos(2, 0));
    assert!(piece_move.is_pawn_promotion_move());
    piece_move.execute(&mut board);
    assert!(board.is_empty(pos(1, 1)));
    assert_eq!(board.get(pos(2, 0)), Some(moved_pawn(Player::White)));
    assert!(Move::PawnPromotion(piece_move).is_pawn_promotion_move());
}

#[test]
fn move_accessors() {
    let piece_move = Move::Castle(CastleMove::new(pos(4, 7), pos(6, 7)));
    assert_eq!(piece_move.get_from_pos(), pos(4, 7));
    assert_eq!(piece_move.get_to_pos(), pos(6, 7));
    let other = EnPassantMove::new(pos(1, 3), pos(2, 2));
    assert_eq!(other.get_from_pos(), pos(1, 3));
    assert_eq!(other.get_to_pos(), pos(2, 2));
    let double = DoublePawnMove::new(pos(1, 6), pos(1, 4));
    assert_eq!(double.get_from_pos(), pos(1, 6));
    assert_eq!(double.get_to_pos(), pos(1, 4));
}

#[test]
fn legal_moves_of_a_pinned_rook() {
    let mut board = Board::default();
    board.set(pos(4, 7), Some(moved_king(Player::White)));
    board.set(pos(4, 5), Some(moved_rook(Player::White)));
    board.set(pos(4, 0), Some(moved_rook(Player::Black)));
    board.set(pos(0, 0), Some(moved_king(Player::Black)));
    assert_eq!(
        board.get_legal_moves(pos(4, 5)),
        normals((4, 5), &[(4, 4), (4, 3), (4, 2), (4, 1), (4, 0), (4, 6)])
    );
}

#[test]
fn legal_moves_never_leave_the_king_in_check() {
    let mut board = Board::default();
    board.set(pos(4, 7), Some(moved_king(Player::White)));
    board.set(pos(3, 6), Some(Piece::Queen(Queen::new(Player::White))));
    board.set(pos(5, 5), Some(Piece::Knight(Knight::new(Player::White))));
    board.set(pos(1, 3), Some(Piece::Bishop(Bishop::new(Player::Black))));
    board.set(pos(4, 0), Some(moved_rook(Player::Black)));
    board.set(pos(7, 7), Some(moved_rook(Player::Black)));
    board.set(pos(0, 0), Some(moved_king(Player::Black)));
    for column in 0..8 {
        for row in 0..8 {
            if let Some(piece) = board.get(pos(column, row)) {
                let legal = board.get_legal_moves(pos(column, row));
                for piece_move in legal.iter() {
                    let mut copy = board;
                    piece_move.execute(&mut copy);
                    assert!(!copy.get_check(piece.get_color()));
                }
                let all = piece.get_moves(pos(column, row), &board);
                for piece_move in all.iter() {
                    let mut copy = board;
                    piece_move.execute(&mut copy);
                    assert_eq!(legal.contains(piece_move), !copy.get_check(piece.get_color()));
                }
            }
        }
    }
}

#[test]
fn castling_does_not_look_at_the_kings_own_square() {
    let mut board = castling_board();
    let mut rook = Rook::new(Player::Black);
    rook.has_moved = true;
    board.set(pos(4, 3), Some(Piece::Rook(rook)));
    assert!(board.get_check(Player::White));
    let moves = King::new(Player::White).get_moves(pos(4, 7), &board);
    assert!(moves.contains(&castle((4, 7), (2, 7))));
    assert!(moves.contains(&castle((4, 7), (6, 7))));
}

#[test]
fn no_two_moves_of_a_piece_end_on_one_square() {
    let mut board = castling_board();
    board.set(pos(3, 3), Some(Piece::Queen(Queen::new(Player::White))));
    board.set(pos(5, 5), Some(Piece::Knight(Knight::new(Player::Black))));
    board.set(pos(2, 6), Some(Piece::Pawn(Pawn::new(Player::White))));
    board.set(pos(1, 5), Some(Piece::Pawn(Pawn::new(Player::Black))));
    for column in 0..8 {
        for row in 0..8 {
            if let Some(piece) = board.get(pos(column, row)) {
                let moves = piece.get_moves(pos(column, row), &board);
                for (i, first) in moves.iter().enumerate() {
                    assert_eq!(first.get_from_pos(), pos(column, row));
                    assert!(Board::is_inside(first.get_to_pos()));
                    if let Some(target) = board.get(first.get_to_pos()) {
                        assert_ne!(target.get_color(), piece.get_color());
                    }
                    for second in moves[i + 1..].iter() {
                        assert_ne!(first.get_to_pos(), second.get_to_pos());
                    }
                }
            }
        }
    }
}

#[test]
fn castling_from_another_square_of_the_home_row() {
    let mut board = Board::default();
    board.set(pos(5, 7), Some(Piece::King(King::new(Player::White))));
    board.set(pos(0, 7), Some(Piece::Rook(Rook::new(Player::White))));
    board.set(pos(4, 0), Some(moved_king(Player::Black)));
    let moves = King::new(Player::White).get_moves(pos(5, 7), &board);
    assert!(moves.contains(&castle((5, 7), (3, 7))));
    let mut after = board;
    castle((5, 7), (3, 7)).execute(&mut after);
    assert_eq!(after.get(pos(3, 7)), Some(moved_king(Player::White)));
    assert_eq!(after.get(pos(0, 7)), Some(Piece::Rook(Rook::new(Player::White))));
    assert!(after.is_empty(pos(5, 7)));
}

#[test]
fn no_castling_over_the_edge_of_the_board() {
    let mut board = Board::default();
    board.set(pos(7, 3), Some(Piece::King(King::new(Player::White))));
    board.set(pos(7, 7), Some(Piece::Rook(Rook::new(Player::White))));
    board.set(pos(0, 7), Some(Piece::Rook(Rook::new(Player::White))));
    board.set(pos(0, 0), Some(moved_king(Player::Black)));
    let moves = King::new(Player::White).get_moves(pos(7, 3), &board);
    assert_eq!(
        moves,
        vec![
            normal((7, 3), (7, 2)),
            normal((7, 3), (6, 2)),
            normal((7, 3), (6, 3)),
            normal((7, 3), (6, 4)),
            normal((7, 3), (7, 4)),
            castle((7, 3), (5, 3)),
        ]
    );
}
