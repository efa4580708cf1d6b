//! What holds of the rules, stated and proved: of the moves that the
//! pieces are offered, of what a move does to the board, and of the
//! endings of a game.

use vstd::prelude::*;
use crate::game::board::{Board, BoardView};
use crate::game::direction::Direction;
use crate::game::distinct_ends::{
    distinct_ends, ends_within, lemma_diagonal_slides_distinct,
    lemma_diagonal_slides_take_the_other_colour, lemma_filtered_distinct, lemma_king_moves_distinct,
    lemma_king_takes_the_other_colour, lemma_knight_moves_distinct,
    lemma_knight_takes_the_other_colour, lemma_pawn_moves_distinct,
    lemma_pawn_takes_the_other_colour, lemma_queen_moves_distinct,
    lemma_queen_takes_the_other_colour, lemma_straight_slides_distinct,
    lemma_straight_slides_take_the_other_colour, open_to,
};
use crate::game::game_event::EndType;
use crate::game::piece::king::King;
use crate::game::piece::{Piece, PieceType, Player};
use crate::game::piece_move::normal_move::NormalMove;
use crate::game::piece_move::Move;
use crate::game::position::Position;
use crate::game::proofs::{
    lemma_castling_can_apply, lemma_castling_takes_nothing, lemma_diagonal_slides_end_inside,
    lemma_king_moves_end_inside, lemma_knight_moves_end_inside, lemma_only_kings_castle,
    lemma_pawn_moves_end_inside, lemma_queen_moves_end_inside, lemma_ray_is_whole,
    lemma_steps_are_ordinary, lemma_straight_slides_end_inside, start_and_end_well,
};
use crate::game::GameView;

verus! {

/// What a board holds lies on the board.
pub proof fn lemma_view_is_on_board(board: Board)
    ensures
        board@.on_board(),
{
}

/// The mark of having moved is never taken back: a piece that has moved
/// stays as it is when it moves again, and a pawn, rook or king that has
/// moved once is marked.
pub proof fn lemma_moved_stays_moved(piece: Piece)
    ensures
        piece.moved().moved() == piece.moved(),
        piece.has_moved() ==> piece.moved() == piece,
        piece.moved().color() == piece.color(),
        piece.moved().piece_type() == piece.piece_type(),
        piece is Pawn || piece is Rook || piece is King ==> piece.moved().has_moved(),
{
}

/// A game starts with one king of each colour, on column 4 of its home
/// row.
pub proof fn lemma_one_king_each_at_the_start(player: Player)
    ensures
        forall|p: Position| #[trigger]
            BoardView::starting().holds(p, player, PieceType::King) <==> p == (Position {
                column: 4,
                row: player.home_row(),
            }),
        BoardView::starting().kings_at_home(),
{
}

/// The moves along one direction form the whole ray.
pub proof fn lemma_slide_is_whole_ray(
    board: BoardView,
    color: Player,
    from: Position,
    direction: Direction,
)
    requires
        direction.is_heading(),
    ensures
        board.is_whole_ray(board.slide(color, from, direction), color, from, direction),
{
    lemma_ray_is_whole(board, color, from, from.plus(direction), direction);
}

/// Only one list of moves is the whole ray: the moves that a sliding
/// piece is offered along the direction.
pub proof fn lemma_whole_ray_is_one(
    board: BoardView,
    moves: Seq<Move>,
    color: Player,
    from: Position,
    start: Position,
    direction: Direction,
)
    requires
        direction.is_heading(),
        board.is_whole_ray_from(moves, color, from, start, direction),
    ensures
        moves == board.ray(color, from, start, direction),
    decreases direction.room(start),
{
    let n = moves.len() as int;
    if !Board::is_inside(start) {
        if n > 0 {
            assert(Board::is_inside(moves[0].to_pos()));
        }
        assert(moves =~= Seq::<Move>::empty());
    } else if board.is_empty(start) {
        assert(n > 0);
        let rest = moves.drop_first();
        assert forall|i: int| 0 <= i < rest.len() implies #[trigger] rest[i] == moves[i + 1] by {}
        assert(board.is_whole_ray_from(rest, color, from, start.plus(direction), direction)) by {
            if n > 1 {
                assert(rest[0] == moves[1]);
                assert(rest[n - 2] == moves[n - 1]);
                assert forall|i: int| 0 <= i < rest.len() - 1 implies (#[trigger] rest[i + 1]).to_pos()
                    == rest[i].to_pos().plus(direction) by {
                    assert(rest[i + 1] == moves[(i + 1) + 1]);
                    assert(rest[i] == moves[i + 1]);
                }
                assert forall|i: int| 0 <= i < rest.len() - 1 implies board.is_empty(
                    (#[trigger] rest[i]).to_pos(),
                ) by {
                    assert(rest[i] == moves[i + 1]);
                }
            }
        }
        lemma_whole_ray_is_one(board, rest, color, from, start.plus(direction), direction);
        assert(moves[0] == Move::Normal(NormalMove { from_pos: from, to_pos: start }));
        assert(moves =~= seq![moves[0]] + rest);
    } else if board.squares[start].color() != color {
        assert(n > 0);
        if n > 1 {
            assert(board.is_empty(moves[0].to_pos()));
        }
        assert(moves[0] == Move::Normal(NormalMove { from_pos: from, to_pos: start }));
        assert(moves =~= seq![moves[0]]);
    } else {
        if n > 1 {
            assert(board.is_empty(moves[0].to_pos()));
        }
        assert(moves =~= Seq::<Move>::empty());
    }
}

/// Every move that a piece is offered starts on its square and ends on the
/// board.
pub proof fn lemma_moves_end_inside(board: BoardView, from: Position)
    requires
        Board::is_inside(from),
        board.squares.contains_key(from),
    ensures
        start_and_end_well(board.pseudo_legal_moves(from), from, board),
        start_and_end_well(board.attacking_moves(from), from, board),
{
    match board.squares[from] {
        Piece::Pawn(p) => lemma_pawn_moves_end_inside(board, p, from),
        Piece::Knight(p) => lemma_knight_moves_end_inside(board, p, from),
        Piece::Bishop(p) => lemma_diagonal_slides_end_inside(board, p.player, from),
        Piece::Rook(p) => lemma_straight_slides_end_inside(board, p.player, from),
        Piece::Queen(p) => lemma_queen_moves_end_inside(board, p, from),
        Piece::King(p) => lemma_king_moves_end_inside(board, p, from),
    }
}

/// No piece is offered a move onto a piece of its own colour.
pub proof fn lemma_moves_take_the_other_colour(board: BoardView, from: Position)
    requires
        board.squares.contains_key(from),
    ensures
        ends_within(board.pseudo_legal_moves(from), open_to(board, board.squares[from].color())),
        ends_within(board.attacking_moves(from), open_to(board, board.squares[from].color())),
{
    match board.squares[from] {
        Piece::Pawn(p) => lemma_pawn_takes_the_other_colour(board, p, from),
        Piece::Knight(p) => lemma_knight_takes_the_other_colour(board, p, from),
        Piece::Bishop(p) => lemma_diagonal_slides_take_the_other_colour(board, p.player, from),
        Piece::Rook(p) => lemma_straight_slides_take_the_other_colour(board, p.player, from),
        Piece::Queen(p) => lemma_queen_takes_the_other_colour(board, p, from),
        Piece::King(p) => lemma_king_takes_the_other_colour(board, p, from),
    }
}

/// No piece is offered two moves that end on the same square.
pub proof fn lemma_offered_moves_distinct(board: BoardView, from: Position)
    requires
        Board::is_inside(from),
        board.squares.contains_key(from),
    ensures
        distinct_ends(board.pseudo_legal_moves(from)),
{
    match board.squares[from] {
        Piece::Pawn(p) => lemma_pawn_moves_distinct(board, p, from),
        Piece::Knight(p) => lemma_knight_moves_distinct(board, p, from),
        Piece::Bishop(p) => lemma_diagonal_slides_distinct(board, p.player, from),
        Piece::Rook(p) => lemma_straight_slides_distinct(board, p.player, from),
        Piece::Queen(p) => lemma_queen_moves_distinct(board, p, from),
        Piece::King(p) => lemma_king_moves_distinct(board, p, from),
    }
}

/// On a board whose unmoved kings stand on their home rows, every move
/// that a piece is offered can be carried out.
pub proof fn lemma_offered_moves_can_apply(board: BoardView, from: Position)
    requires
        Board::is_inside(from),
        board.squares.contains_key(from),
        board.kings_at_home(),
    ensures
        forall|i: int|
            0 <= i < board.pseudo_legal_moves(from).len() ==> (
            #[trigger] board.pseudo_legal_moves(from)[i]).can_apply(board),
{
    lemma_moves_end_inside(board, from);
    let moves = board.pseudo_legal_moves(from);
    assert forall|i: int| 0 <= i < moves.len() implies (#[trigger] moves[i]).can_apply(board) by {
        if moves[i] is Castle {
            match board.squares[from] {
                Piece::King(king) => {
                    let steps = king.steps(board, from);
                    let castles = king.castles(board, from);
                    assert(moves == steps + castles);
                    lemma_king_moves_end_inside(board, king, from);
                    assert(i >= steps.len()) by {
                        if i < steps.len() {
                            assert(moves[i] == steps[i]);
                            lemma_steps_are_ordinary(board, king, from);
                        }
                    }
                    assert(moves[i] == castles[i - steps.len()]);
                    lemma_castling_can_apply(board, king, from);
                },
                _ => {
                    lemma_only_kings_castle(board, from);
                },
            }
        }
    }
}

/// Castling is offered only to a king that has not moved, toward a rook
/// of its colour that has not moved and stands in a corner of the king's
/// home row, over empty squares, and only if the king would not stand in
/// check on the square that it passes. On the king's own first square
/// these are all the squares between king and rook.
pub proof fn lemma_castling_only_when_allowed(board: BoardView, from: Position, i: int)
    requires
        Board::is_inside(from),
        board.squares.contains_key(from),
        0 <= i < board.pseudo_legal_moves(from).len(),
        board.pseudo_legal_moves(from)[i] is Castle,
    ensures
        ({
            let piece_move = board.pseudo_legal_moves(from)[i];
            let west = piece_move.to_pos().column < from.column;
            let toward = if west {
                Direction::west()
            } else {
                Direction::east()
            };
            let color = board.squares[from].color();
            let corner = Position {
                column: if west {
                    0
                } else {
                    7
                },
                row: color.home_row(),
            };
            &&& board.squares[from] is King
            &&& !board.squares[from].has_moved()
            &&& piece_move.from_pos() == from
            &&& piece_move.to_pos() == from.plus_times(toward, 2)
            &&& board.holds(corner, color, PieceType::Rook)
            &&& !board.squares[corner].has_moved()
            &&& King::path_is_open(
                board,
                from,
                toward,
                if west {
                    3
                } else {
                    2
                },
            )
            &&& !(NormalMove { from_pos: from, to_pos: from.plus(toward) }).apply(board).in_check(
                color,
            )
            &&& from.column == 4 && from.row == color.home_row() ==> forall|p: Position|
                p.row == from.row && (corner.column < p.column < 4 || 4 < p.column < corner.column)
                    ==> board.is_empty(p)
        }),
{
    match board.squares[from] {
        Piece::King(king) => {
            let steps = king.steps(board, from);
            let castles = king.castles(board, from);
            let color = king.player;
            let row = color.home_row();
            lemma_steps_are_ordinary(board, king, from);
            assert(board.pseudo_legal_moves(from) == steps + castles);
            if i < steps.len() {
                assert((steps + castles)[i] == steps[i]);
            }
            let piece_move = castles[i - steps.len()];
            assert((steps + castles)[i] == piece_move);
            let west_corner = Position { column: 0, row };
            let east_corner = Position { column: 7, row };
            if piece_move.to_pos().column < from.column {
                assert(king.can_castle(board, from, Direction::west(), west_corner, 3));
                if from.column == 4 && from.row == row {
                    assert forall|p: Position|
                        p.row == from.row && 0 < p.column < 4 implies board.is_empty(p) by {
                        assert(p == from.plus_times(Direction::west(), 4 - p.column));
                    }
                }
            } else {
                assert(king.can_castle(board, from, Direction::east(), east_corner, 2));
                if from.column == 4 && from.row == row {
                    assert forall|p: Position|
                        p.row == from.row && 4 < p.column < 7 implies board.is_empty(p) by {
                        assert(p == from.plus_times(Direction::east(), p.column - 4));
                    }
                }
            }
        },
        _ => {
            lemma_only_kings_castle(board, from);
        },
    }
}

/// A player is in check exactly if some piece of the opponent is offered a
/// move, castling included, that ends on the player's king.
pub proof fn lemma_in_check_by_any_offered_move(board: BoardView, player: Player)
    ensures
        board.in_check(player) <==> exists|from: Position|
            {
                &&& Board::is_inside(from)
                &&& board.holds_color(from, player.opponent())
                &&& #[trigger] board.reaches_king(board.pseudo_legal_moves(from), player)
            },
{
    if board.in_check(player) {
        let from = choose|from: Position| Board::is_inside(from) && #[trigger] board.threatens(from, player);
        lemma_castling_takes_nothing(board, from, player);
        assert(board.holds_color(from, player.opponent()));
        assert(board.reaches_king(board.pseudo_legal_moves(from), player));
    }
    if exists|from: Position|
        {
            &&& Board::is_inside(from)
            &&& board.holds_color(from, player.opponent())
            &&& #[trigger] board.reaches_king(board.pseudo_legal_moves(from), player)
        } {
        let from = choose|from: Position|
            {
                &&& Board::is_inside(from)
                &&& board.holds_color(from, player.opponent())
                &&& #[trigger] board.reaches_king(board.pseudo_legal_moves(from), player)
            };
        lemma_castling_takes_nothing(board, from, player);
        assert(board.threatens(from, player));
    }
}

/// A legal move is one of the moves that the piece is offered, and it
/// never leaves the king of the mover's colour in check.
pub proof fn lemma_legal_moves_leave_no_check(board: BoardView, from: Position, i: int)
    requires
        0 <= i < board.legal_moves(from).len(),
    ensures
        board.pseudo_legal_moves(from).contains(board.legal_moves(from)[i]),
        !board.legal_moves(from)[i].apply(board).in_check(board.squares[from].color()),
{
    let legal = |piece_move: Move| board.is_legal(piece_move, board.squares[from].color());
    let offered = board.pseudo_legal_moves(from);
    offered.lemma_filter_pred(legal, i);
    assert(offered.filter(legal).contains(offered.filter(legal)[i]));
    offered.lemma_filter_contains_rev(legal, offered.filter(legal)[i]);
}

/// Every move that is offered and does not leave the king of the mover's
/// colour in check is a legal move.
pub proof fn lemma_safe_moves_are_legal(board: BoardView, from: Position, i: int)
    requires
        0 <= i < board.pseudo_legal_moves(from).len(),
        !board.pseudo_legal_moves(from)[i].apply(board).in_check(board.squares[from].color()),
    ensures
        board.legal_moves(from).contains(board.pseudo_legal_moves(from)[i]),
{
    let legal = |piece_move: Move| board.is_legal(piece_move, board.squares[from].color());
    board.pseudo_legal_moves(from).lemma_filter_contains(legal, i);
}

/// No piece has two legal moves that end on the same square.
pub proof fn lemma_legal_moves_distinct(board: BoardView, from: Position)
    requires
        Board::is_inside(from),
        board.squares.contains_key(from),
    ensures
        distinct_ends(board.legal_moves(from)),
{
    lemma_offered_moves_distinct(board, from);
    lemma_filtered_distinct(
        board.pseudo_legal_moves(from),
        |piece_move: Move| board.is_legal(piece_move, board.squares[from].color()),
    );
}

/// Among moves with distinct ends, the first that ends on a square is the
/// only one that does.
pub proof fn lemma_first_is_only(moves: Seq<Move>, position: Position)
    requires
        distinct_ends(moves),
    ensures
        match GameView::first_ending_on(moves, position) {
            Some(piece_move) => {
                &&& piece_move.to_pos() == position
                &&& moves.contains(piece_move)
                &&& forall|i: int|
                    0 <= i < moves.len() && (#[trigger] moves[i]).to_pos() == position ==> moves[i]
                        == piece_move
            },
            None => forall|i: int| 0 <= i < moves.len() ==> (#[trigger] moves[i]).to_pos() != position,
        },
    decreases moves.len(),
{
    if moves.len() > 0 {
        let rest = moves.drop_first();
        assert forall|i: int| 0 <= i < rest.len() implies #[trigger] rest[i] == moves[i + 1] by {}
        if moves[0].to_pos() == position {
            assert forall|i: int|
                0 <= i < moves.len() && (#[trigger] moves[i]).to_pos() == position implies moves[i]
                == moves[0] by {
                if i > 0 {
                    assert(moves[0].to_pos() != moves[i].to_pos());
                }
            }
        } else {
            assert(distinct_ends(rest)) by {
                assert forall|i: int, j: int| 0 <= i < j < rest.len() implies (
                #[trigger] rest[i]).to_pos() != (#[trigger] rest[j]).to_pos() by {
                    assert(moves[i + 1].to_pos() != moves[j + 1].to_pos());
                }
            }
            lemma_first_is_only(rest, position);
            match GameView::first_ending_on(rest, position) {
                Some(piece_move) => {
                    let k = choose|k: int| 0 <= k < rest.len() && rest[k] == piece_move;
                    assert(moves[k + 1] == piece_move);
                    assert forall|i: int|
                        0 <= i < moves.len() && (#[trigger] moves[i]).to_pos()
                            == position implies moves[i] == piece_move by {
                        assert(rest[i - 1] == moves[i]);
                    }
                },
                None => {
                    assert forall|i: int| 0 <= i < moves.len() implies (#[trigger] moves[i]).to_pos()
                        != position by {
                        if i > 0 {
                            assert(rest[i - 1] == moves[i]);
                        }
                    }
                },
            }
        }
    }
}

/// After a pawn's double step the square that it skipped can be taken en
/// passant; after every other move none can.
pub proof fn lemma_en_passant_after_a_move(board: BoardView, piece_move: Move)
    ensures
        piece_move is DoublePawn ==> piece_move.apply(board).en_passant == Some(
            piece_move.from_pos().plus(board.squares[piece_move.from_pos()].color().forward()),
        ),
        !(piece_move is DoublePawn) ==> piece_move.apply(board).en_passant is None,
{
}

/// What an ordinary move, or the move of a pawn onto the last row, leaves
/// on the board: the piece, marked as moved, on the square where the move
/// ends; nothing where it started; every other square as it was.
pub proof fn lemma_relocation_effect(board: BoardView, piece_move: Move)
    requires
        piece_move is Normal || piece_move is PawnPromotion,
        piece_move.can_apply(board),
    ensures
        ({
            let after = piece_move.apply(board);
            let from = piece_move.from_pos();
            let to = piece_move.to_pos();
            &&& after.piece_at(to) == Some(board.squares[from].moved())
            &&& from != to ==> after.is_empty(from)
            &&& forall|p: Position| p != from && p != to ==> after.piece_at(p) == board.piece_at(p)
        }),
{
}

/// What a pawn's double step leaves on the board: the pawn, marked as
/// moved, on the square where the move ends; nothing where it started;
/// every other square as it was.
pub proof fn lemma_double_step_effect(board: BoardView, piece_move: Move)
    requires
        piece_move is DoublePawn,
        piece_move.can_apply(board),
    ensures
        ({
            let after = piece_move.apply(board);
            let from = piece_move.from_pos();
            let to = piece_move.to_pos();
            &&& after.piece_at(to) == Some(board.squares[from].moved())
            &&& from != to ==> after.is_empty(from)
            &&& forall|p: Position| p != from && p != to ==> after.piece_at(p) == board.piece_at(p)
        }),
{
}

/// What a capture en passant leaves on the board: the pawn, marked as
/// moved, on the square where the move ends; nothing where it started,
/// nor one step behind the square where it ends; every other square as
/// it was.
pub proof fn lemma_en_passant_effect(board: BoardView, piece_move: Move)
    requires
        piece_move is EnPassant,
        piece_move.can_apply(board),
    ensures
        ({
            let after = piece_move.apply(board);
            let from = piece_move.from_pos();
            let to = piece_move.to_pos();
            let taken = to.plus(board.squares[from].color().backward());
            &&& after.piece_at(to) == Some(board.squares[from].moved())
            &&& from != to ==> after.is_empty(from)
            &&& after.is_empty(taken)
            &&& forall|p: Position|
                p != from && p != to && p != taken ==> after.piece_at(p) == board.piece_at(p)
        }),
{
}

/// What castling from the king's first square leaves on the board: toward
/// column 7 the king on column 6 and the rook of column 7 on column 5;
/// toward column 0 the king on column 2 and the rook of column 0 on
/// column 3; both marked as moved; the squares that they left empty; every
/// other square as it was.
pub proof fn lemma_castle_effect(board: BoardView, piece_move: Move)
    requires
        piece_move is Castle,
        piece_move.can_apply(board),
        piece_move.from_pos().column == 4,
        piece_move.to_pos().row == piece_move.from_pos().row,
        piece_move.to_pos().column == 2 || piece_move.to_pos().column == 6,
    ensures
        ({
            let after = piece_move.apply(board);
            let from = piece_move.from_pos();
            let to = piece_move.to_pos();
            let corner = Position {
                column: if to.column == 2 {
                    0
                } else {
                    7
                },
                row: to.row,
            };
            let beside = Position {
                column: if to.column == 2 {
                    3
                } else {
                    5
                },
                row: to.row,
            };
            &&& after.piece_at(to) == Some(board.squares[from].moved())
            &&& after.piece_at(beside) == Some(board.squares[corner].moved())
            &&& after.is_empty(from)
            &&& after.is_empty(corner)
            &&& forall|p: Position|
                p != from && p != to && p != corner && p != beside ==> after.piece_at(p)
                    == board.piece_at(p)
        }),
{
}

/// A move leaves every unmoved king on its home row: what it carries
/// along is marked as moved.
pub proof fn lemma_moves_keep_kings_at_home(board: BoardView, piece_move: Move)
    requires
        board.kings_at_home(),
    ensures
        piece_move.apply(board).kings_at_home(),
{
    let after = piece_move.apply(board);
    assert forall|p: Position|
        after.squares.contains_key(p) && (#[trigger] after.squares[p]).is_unmoved_king() implies p.row
        == after.squares[p].color().home_row() by {
        assert(board.squares.contains_key(p) && board.squares[p] == after.squares[p]);
    }
}

/// The fingerprint of a position has a letter for each of the 64 squares
/// and four marks.
pub proof fn lemma_fingerprint_length(board: BoardView)
    ensures
        board.fingerprint().len() == 68,
{
}

/// A move that takes a piece or moves a pawn puts the count toward the
/// fifty-move rule back to 0; every other move adds one to it.
pub proof fn lemma_count_after_a_move(game: GameView, piece_move: Move)
    requires
        game.fifty_move_rule < u8::MAX,
    ensures
        game.resets_count(piece_move) ==> game.commit(piece_move).fifty_move_rule == 0,
        !game.resets_count(piece_move) ==> game.commit(piece_move).fifty_move_rule
            == game.fifty_move_rule + 1,
{
}

/// A position that has come up for the third time ends the game by
/// repetition, unless another ending holds too; one that has come up
/// another number of times does not.
pub proof fn lemma_repetition_on_the_third_occurrence(
    board: BoardView,
    player: Player,
    seen: int,
    fifty: u8,
)
    ensures
        seen == 3 && fifty < 100 && !board.insufficient_material() && board.can_move(player)
            ==> GameView::verdict(board, player, seen, fifty) == Some(EndType::Repetition),
        seen != 3 ==> GameView::verdict(board, player, seen, fifty) != Some(EndType::Repetition),
{
}

/// A hundred moves without a capture or a pawn's move end the game by the
/// fifty-move rule, whatever else holds; fewer do not.
pub proof fn lemma_fifty_move_rule(board: BoardView, player: Player, seen: int, fifty: u8)
    ensures
        fifty >= 100 <==> GameView::verdict(board, player, seen, fifty) == Some(
            EndType::FiftyMoveRule,
        ),
{
}

/// The game is over by checkmate only where the player to move is in
/// check and has no legal move, and then the opponent has won; by
/// stalemate only where that player is not in check and has no legal
/// move. Where that player has no legal move and no draw by the fifty-move
/// rule or by insufficient material holds, the game is over by the one or
/// the other.
pub proof fn lemma_mate_and_stalemate(board: BoardView, player: Player, seen: int, fifty: u8)
    ensures
        GameView::verdict(board, player, seen, fifty) matches Some(EndType::Checkmate(winner))
            ==> winner == player.opponent() && board.in_check(player) && !board.can_move(player),
        GameView::verdict(board, player, seen, fifty) == Some(EndType::Stalemate)
            ==> !board.in_check(player) && !board.can_move(player),
        !board.can_move(player) && fifty < 100 && !board.insufficient_material() ==> {
            GameView::verdict(board, player, seen, fifty) == if board.in_check(player) {
                Some(EndType::Checkmate(player.opponent()))
            } else {
                Some(EndType::Stalemate)
            }
        },
{
}

} // verus!
