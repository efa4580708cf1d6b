//! Steps of the proofs about moves, counts and lists of moves.

use vstd::prelude::*;
use crate::game::board::{Board, BoardView};
use crate::game::direction::Direction;
use crate::game::piece::king::King;
use crate::game::piece::knight::Knight;
use crate::game::piece::pawn::Pawn;
use crate::game::piece::queen::Queen;
use crate::game::piece::{Piece, PieceType, Player};
use crate::game::piece_move::normal_move::NormalMove;
use crate::game::piece_move::Move;
use crate::game::position::Position;

verus! {

/// Whether every one of `moves` starts on `from`, ends on the board and,
/// unless it is castling, can be carried out on `board`.
pub open spec fn start_and_end_well(moves: Seq<Move>, from: Position, board: BoardView) -> bool {
    forall|i: int|
        0 <= i < moves.len() ==> {
            &&& (#[trigger] moves[i]).from_pos() == from
            &&& Board::is_inside(moves[i].to_pos())
            &&& moves[i] is Castle || moves[i].can_apply(board)
        }
}

/// Two lists of moves that start on `from` and end on the board make one
/// such list.
pub proof fn lemma_joined_end_well(first: Seq<Move>, second: Seq<Move>, from: Position, board: BoardView)
    requires
        start_and_end_well(first, from, board),
        start_and_end_well(second, from, board),
    ensures
        start_and_end_well(first + second, from, board),
{
}

/// Every move along a ray starts on `from` and ends on the board.
pub proof fn lemma_ray_ends_inside(
    board: BoardView,
    color: Player,
    from: Position,
    position: Position,
    direction: Direction,
)
    requires
        direction.is_heading(),
        Board::is_inside(from),
        board.squares.contains_key(from),
    ensures
        start_and_end_well(board.ray(color, from, position, direction), from, board),
    decreases direction.room(position),
{
    if Board::is_inside(position) && board.is_empty(position) {
        lemma_ray_ends_inside(board, color, from, position.plus(direction), direction);
    }
}

/// What a piece may do along one direction is the whole ray: it stops only
/// at the edge of the board, before a piece of its own colour, or on a
/// piece that it takes.
pub proof fn lemma_ray_is_whole(
    board: BoardView,
    color: Player,
    from: Position,
    position: Position,
    direction: Direction,
)
    requires
        direction.is_heading(),
    ensures
        board.is_whole_ray_from(
            board.ray(color, from, position, direction),
            color,
            from,
            position,
            direction,
        ),
    decreases direction.room(position),
{
    if Board::is_inside(position) && board.is_empty(position) {
        let rest = board.ray(color, from, position.plus(direction), direction);
        let moves = board.ray(color, from, position, direction);
        lemma_ray_is_whole(board, color, from, position.plus(direction), direction);
        assert(moves =~= seq![Move::Normal(NormalMove { from_pos: from, to_pos: position })] + rest);
        assert forall|i: int| 0 < i < moves.len() implies moves[i] == rest[i - 1] by {}
        assert forall|i: int| 0 <= i < moves.len() - 1 implies (#[trigger] moves[i + 1]).to_pos()
            == moves[i].to_pos().plus(direction) by {
            if i > 0 {
                assert(moves[i + 1] == rest[i]);
                assert(moves[i] == rest[i - 1]);
                assert(rest[(i - 1) + 1].to_pos() == rest[i - 1].to_pos().plus(direction));
            }
        }
    }
}

/// The moves of a piece that slides along the rows and columns start on
/// its square and end on the board.
pub proof fn lemma_straight_slides_end_inside(board: BoardView, color: Player, from: Position)
    requires
        Board::is_inside(from),
        board.squares.contains_key(from),
    ensures
        start_and_end_well(
            board.slide(color, from, Direction::north()) + board.slide(color, from, Direction::south())
                + board.slide(color, from, Direction::east()) + board.slide(
                color,
                from,
                Direction::west(),
            ),
            from,
            board,
        ),
{
    let n = board.slide(color, from, Direction::north());
    let s = board.slide(color, from, Direction::south());
    let e = board.slide(color, from, Direction::east());
    let w = board.slide(color, from, Direction::west());
    lemma_ray_ends_inside(board, color, from, from.plus(Direction::north()), Direction::north());
    lemma_ray_ends_inside(board, color, from, from.plus(Direction::south()), Direction::south());
    lemma_ray_ends_inside(board, color, from, from.plus(Direction::east()), Direction::east());
    lemma_ray_ends_inside(board, color, from, from.plus(Direction::west()), Direction::west());
    lemma_joined_end_well(n, s, from, board);
    lemma_joined_end_well(n + s, e, from, board);
    lemma_joined_end_well(n + s + e, w, from, board);
}

/// The moves of a piece that slides along the diagonals start on its
/// square and end on the board.
pub proof fn lemma_diagonal_slides_end_inside(board: BoardView, color: Player, from: Position)
    requires
        Board::is_inside(from),
        board.squares.contains_key(from),
    ensures
        start_and_end_well(
            board.slide(color, from, Direction::north_east()) + board.slide(
                color,
                from,
                Direction::north_west(),
            ) + board.slide(color, from, Direction::south_east()) + board.slide(
                color,
                from,
                Direction::south_west(),
            ),
            from,
            board,
        ),
{
    let a = board.slide(color, from, Direction::north_east());
    let b = board.slide(color, from, Direction::north_west());
    let c = board.slide(color, from, Direction::south_east());
    let d = board.slide(color, from, Direction::south_west());
    lemma_ray_ends_inside(board, color, from, from.plus(Direction::north_east()), Direction::north_east());
    lemma_ray_ends_inside(board, color, from, from.plus(Direction::north_west()), Direction::north_west());
    lemma_ray_ends_inside(board, color, from, from.plus(Direction::south_east()), Direction::south_east());
    lemma_ray_ends_inside(board, color, from, from.plus(Direction::south_west()), Direction::south_west());
    lemma_joined_end_well(a, b, from, board);
    lemma_joined_end_well(a + b, c, from, board);
    lemma_joined_end_well(a + b + c, d, from, board);
}

/// The moves of a queen start on its square and end on the board.
pub proof fn lemma_queen_moves_end_inside(board: BoardView, queen: Queen, from: Position)
    requires
        Board::is_inside(from),
        board.squares.contains_key(from),
    ensures
        start_and_end_well(queen.spec_moves(board, from), from, board),
{
    let color = queen.player;
    let a = board.slide(color, from, Direction::north());
    let b = board.slide(color, from, Direction::north_west());
    let c = board.slide(color, from, Direction::west());
    let d = board.slide(color, from, Direction::south_west());
    let e = board.slide(color, from, Direction::south());
    let f = board.slide(color, from, Direction::south_east());
    let g = board.slide(color, from, Direction::east());
    let h = board.slide(color, from, Direction::north_east());
    lemma_ray_ends_inside(board, color, from, from.plus(Direction::north()), Direction::north());
    lemma_ray_ends_inside(board, color, from, from.plus(Direction::north_west()), Direction::north_west());
    lemma_ray_ends_inside(board, color, from, from.plus(Direction::west()), Direction::west());
    lemma_ray_ends_inside(board, color, from, from.plus(Direction::south_west()), Direction::south_west());
    lemma_ray_ends_inside(board, color, from, from.plus(Direction::south()), Direction::south());
    lemma_ray_ends_inside(board, color, from, from.plus(Direction::south_east()), Direction::south_east());
    lemma_ray_ends_inside(board, color, from, from.plus(Direction::east()), Direction::east());
    lemma_ray_ends_inside(board, color, from, from.plus(Direction::north_east()), Direction::north_east());
    lemma_joined_end_well(a, b, from, board);
    lemma_joined_end_well(a + b, c, from, board);
    lemma_joined_end_well(a + b + c, d, from, board);
    lemma_joined_end_well(a + b + c + d, e, from, board);
    lemma_joined_end_well(a + b + c + d + e, f, from, board);
    lemma_joined_end_well(a + b + c + d + e + f, g, from, board);
    lemma_joined_end_well(a + b + c + d + e + f + g, h, from, board);
}

/// The moves of a knight start on its square and end on the board.
pub proof fn lemma_knight_moves_end_inside(board: BoardView, knight: Knight, from: Position)
    requires
        Board::is_inside(from),
        board.squares.contains_key(from),
    ensures
        start_and_end_well(knight.spec_moves(board, from), from, board),
{
    let a = knight.leap(board, from, Direction { column_delta: 1, row_delta: -2i32 });
    let b = knight.leap(board, from, Direction { column_delta: 2, row_delta: -1i32 });
    let c = knight.leap(board, from, Direction { column_delta: -1i32, row_delta: -2i32 });
    let d = knight.leap(board, from, Direction { column_delta: -2i32, row_delta: -1i32 });
    let e = knight.leap(board, from, Direction { column_delta: 1, row_delta: 2 });
    let f = knight.leap(board, from, Direction { column_delta: 2, row_delta: 1 });
    let g = knight.leap(board, from, Direction { column_delta: -1i32, row_delta: 2 });
    let h = knight.leap(board, from, Direction { column_delta: -2i32, row_delta: 1 });
    assert(start_and_end_well(a, from, board));
    assert(start_and_end_well(b, from, board));
    assert(start_and_end_well(c, from, board));
    assert(start_and_end_well(d, from, board));
    assert(start_and_end_well(e, from, board));
    assert(start_and_end_well(f, from, board));
    assert(start_and_end_well(g, from, board));
    assert(start_and_end_well(h, from, board));
    lemma_joined_end_well(a, b, from, board);
    lemma_joined_end_well(a + b, c, from, board);
    lemma_joined_end_well(a + b + c, d, from, board);
    lemma_joined_end_well(a + b + c + d, e, from, board);
    lemma_joined_end_well(a + b + c + d + e, f, from, board);
    lemma_joined_end_well(a + b + c + d + e + f, g, from, board);
    lemma_joined_end_well(a + b + c + d + e + f + g, h, from, board);
}

/// The moves of a pawn start on its square and end on the board.
pub proof fn lemma_pawn_moves_end_inside(board: BoardView, pawn: Pawn, from: Position)
    requires
        Board::is_inside(from),
        board.squares.contains_key(from),
        board.squares[from].color() == pawn.player,
    ensures
        start_and_end_well(pawn.spec_moves(board, from), from, board),
{
    let forward = pawn.player.forward();
    let a = Pawn::quiet(
        board,
        from,
        Move::Normal(NormalMove { from_pos: from, to_pos: from.plus(forward) }),
    );
    let b = pawn.double_step(board, from);
    let c = pawn.passing_capture(board, from);
    let d = pawn.strike(board, from, pawn.west_of_ahead(from));
    let e = pawn.strike(board, from, pawn.east_of_ahead(from));
    assert(start_and_end_well(a, from, board));
    assert(start_and_end_well(b, from, board));
    assert(start_and_end_well(c, from, board));
    assert(start_and_end_well(d, from, board));
    assert(start_and_end_well(e, from, board));
    lemma_joined_end_well(a, b, from, board);
    lemma_joined_end_well(a + b, c, from, board);
    lemma_joined_end_well(a + b + c, d, from, board);
    lemma_joined_end_well(a + b + c + d, e, from, board);
}

/// The steps of a king start on its square and end on the board.
pub proof fn lemma_king_steps_end_inside(board: BoardView, king: King, from: Position)
    requires
        Board::is_inside(from),
        board.squares.contains_key(from),
    ensures
        start_and_end_well(king.steps(board, from), from, board),
{
    let a = board.hop(king.player, from, from.plus(Direction::north()));
    let b = board.hop(king.player, from, from.plus(Direction::north_west()));
    let c = board.hop(king.player, from, from.plus(Direction::west()));
    let d = board.hop(king.player, from, from.plus(Direction::south_west()));
    let e = board.hop(king.player, from, from.plus(Direction::south()));
    let f = board.hop(king.player, from, from.plus(Direction::south_east()));
    let g = board.hop(king.player, from, from.plus(Direction::east()));
    let h = board.hop(king.player, from, from.plus(Direction::north_east()));
    assert(start_and_end_well(a, from, board));
    assert(start_and_end_well(b, from, board));
    assert(start_and_end_well(c, from, board));
    assert(start_and_end_well(d, from, board));
    assert(start_and_end_well(e, from, board));
    assert(start_and_end_well(f, from, board));
    assert(start_and_end_well(g, from, board));
    assert(start_and_end_well(h, from, board));
    lemma_joined_end_well(a, b, from, board);
    lemma_joined_end_well(a + b, c, from, board);
    lemma_joined_end_well(a + b + c, d, from, board);
    lemma_joined_end_well(a + b + c + d, e, from, board);
    lemma_joined_end_well(a + b + c + d + e, f, from, board);
    lemma_joined_end_well(a + b + c + d + e + f, g, from, board);
    lemma_joined_end_well(a + b + c + d + e + f + g, h, from, board);
}

/// The moves of a king, castling included, start on its square and end on
/// the board.
pub proof fn lemma_king_moves_end_inside(board: BoardView, king: King, from: Position)
    requires
        Board::is_inside(from),
        board.squares.contains_key(from),
    ensures
        start_and_end_well(king.steps(board, from), from, board),
        start_and_end_well(king.castles(board, from), from, board),
        start_and_end_well(king.steps(board, from) + king.castles(board, from), from, board),
{
    lemma_king_steps_end_inside(board, king, from);
    assert(start_and_end_well(king.castles(board, from), from, board)) by {
        let row = king.player.home_row();
        if king.can_castle(board, from, Direction::west(), Position { column: 0, row }, 3) {
            assert(Board::is_inside(from.plus_times(Direction::west(), 2)));
        }
        if king.can_castle(board, from, Direction::east(), Position { column: 7, row }, 2) {
            assert(Board::is_inside(from.plus_times(Direction::east(), 2)));
        }
    }
    lemma_joined_end_well(king.steps(board, from), king.castles(board, from), from, board);
}

/// Of no moves none is kept.
pub proof fn lemma_kept_of_none(moves: Seq<Move>, kept: spec_fn(Move) -> bool)
    ensures
        moves.take(0).filter(kept) == Seq::<Move>::empty(),
{
    reveal(Seq::filter);
    assert(moves.take(0) =~= Seq::<Move>::empty());
}

/// What is kept of the first `i + 1` moves is what is kept of the first
/// `i`, and the next move if it is kept.
pub proof fn lemma_kept_of_one_more(moves: Seq<Move>, kept: spec_fn(Move) -> bool, i: int)
    requires
        0 <= i < moves.len(),
    ensures
        moves.take(i + 1).filter(kept) == if kept(moves[i]) {
            moves.take(i).filter(kept).push(moves[i])
        } else {
            moves.take(i).filter(kept)
        },
{
    reveal(Seq::filter);
    assert(moves.take(i + 1).drop_last() =~= moves.take(i));
    assert(moves.take(i + 1).last() == moves[i]);
}

/// A king's steps are ordinary moves.
pub proof fn lemma_steps_are_ordinary(board: BoardView, king: King, from: Position)
    ensures
        forall|i: int| 0 <= i < king.steps(board, from).len() ==> (#[trigger] king.steps(board, from)[i]) is Normal,
{
    let a = board.hop(king.player, from, from.plus(Direction::north()));
    let b = board.hop(king.player, from, from.plus(Direction::north_west()));
    let c = board.hop(king.player, from, from.plus(Direction::west()));
    let d = board.hop(king.player, from, from.plus(Direction::south_west()));
    let e = board.hop(king.player, from, from.plus(Direction::south()));
    let f = board.hop(king.player, from, from.plus(Direction::south_east()));
    let g = board.hop(king.player, from, from.plus(Direction::east()));
    let h = board.hop(king.player, from, from.plus(Direction::north_east()));
    assert(all_ordinary(a));
    assert(all_ordinary(b));
    assert(all_ordinary(c));
    assert(all_ordinary(d));
    assert(all_ordinary(e));
    assert(all_ordinary(f));
    assert(all_ordinary(g));
    assert(all_ordinary(h));
    lemma_joined_ordinary(a, b);
    lemma_joined_ordinary(a + b, c);
    lemma_joined_ordinary(a + b + c, d);
    lemma_joined_ordinary(a + b + c + d, e);
    lemma_joined_ordinary(a + b + c + d + e, f);
    lemma_joined_ordinary(a + b + c + d + e + f, g);
    lemma_joined_ordinary(a + b + c + d + e + f + g, h);
}

/// Whether none of `moves` is castling.
pub open spec fn no_castling(moves: Seq<Move>) -> bool {
    forall|i: int| 0 <= i < moves.len() ==> !((#[trigger] moves[i]) is Castle)
}

/// Two lists without castling make one.
pub proof fn lemma_joined_no_castling(first: Seq<Move>, second: Seq<Move>)
    requires
        no_castling(first),
        no_castling(second),
    ensures
        no_castling(first + second),
{
}

/// A pawn is never offered castling.
pub proof fn lemma_pawns_do_not_castle(board: BoardView, pawn: Pawn, from: Position)
    ensures
        no_castling(pawn.spec_moves(board, from)),
{
    let forward = pawn.player.forward();
    let a = Pawn::quiet(
        board,
        from,
        Move::Normal(NormalMove { from_pos: from, to_pos: from.plus(forward) }),
    );
    let b = pawn.double_step(board, from);
    let c = pawn.passing_capture(board, from);
    let d = pawn.strike(board, from, pawn.west_of_ahead(from));
    let e = pawn.strike(board, from, pawn.east_of_ahead(from));
    assert(no_castling(a));
    assert(no_castling(b));
    assert(no_castling(c));
    assert(no_castling(d));
    assert(no_castling(e));
    lemma_joined_no_castling(a, b);
    lemma_joined_no_castling(a + b, c);
    lemma_joined_no_castling(a + b + c, d);
    lemma_joined_no_castling(a + b + c + d, e);
}

/// A knight is never offered castling.
pub proof fn lemma_knights_do_not_castle(board: BoardView, knight: Knight, from: Position)
    ensures
        no_castling(knight.spec_moves(board, from)),
{
    let a = knight.leap(board, from, Direction { column_delta: 1, row_delta: -2i32 });
    let b = knight.leap(board, from, Direction { column_delta: 2, row_delta: -1i32 });
    let c = knight.leap(board, from, Direction { column_delta: -1i32, row_delta: -2i32 });
    let d = knight.leap(board, from, Direction { column_delta: -2i32, row_delta: -1i32 });
    let e = knight.leap(board, from, Direction { column_delta: 1, row_delta: 2 });
    let f = knight.leap(board, from, Direction { column_delta: 2, row_delta: 1 });
    let g = knight.leap(board, from, Direction { column_delta: -1i32, row_delta: 2 });
    let h = knight.leap(board, from, Direction { column_delta: -2i32, row_delta: 1 });
    assert(all_ordinary(a));
    assert(all_ordinary(b));
    assert(all_ordinary(c));
    assert(all_ordinary(d));
    assert(all_ordinary(e));
    assert(all_ordinary(f));
    assert(all_ordinary(g));
    assert(all_ordinary(h));
    lemma_joined_ordinary(a, b);
    lemma_joined_ordinary(a + b, c);
    lemma_joined_ordinary(a + b + c, d);
    lemma_joined_ordinary(a + b + c + d, e);
    lemma_joined_ordinary(a + b + c + d + e, f);
    lemma_joined_ordinary(a + b + c + d + e + f, g);
    lemma_joined_ordinary(a + b + c + d + e + f + g, h);
    lemma_ordinary_is_no_castling(knight.spec_moves(board, from));
}

/// A queen is never offered castling.
pub proof fn lemma_queens_do_not_castle(board: BoardView, queen: Queen, from: Position)
    ensures
        no_castling(queen.spec_moves(board, from)),
{
    let color = queen.player;
    lemma_straight_slides_are_ordinary(board, color, from);
    lemma_diagonal_slides_are_ordinary(board, color, from);
    let a = board.slide(color, from, Direction::north());
    let b = board.slide(color, from, Direction::north_west());
    let c = board.slide(color, from, Direction::west());
    let d = board.slide(color, from, Direction::south_west());
    let e = board.slide(color, from, Direction::south());
    let f = board.slide(color, from, Direction::south_east());
    let g = board.slide(color, from, Direction::east());
    let h = board.slide(color, from, Direction::north_east());
    lemma_joined_ordinary(a, b);
    lemma_joined_ordinary(a + b, c);
    lemma_joined_ordinary(a + b + c, d);
    lemma_joined_ordinary(a + b + c + d, e);
    lemma_joined_ordinary(a + b + c + d + e, f);
    lemma_joined_ordinary(a + b + c + d + e + f, g);
    lemma_joined_ordinary(a + b + c + d + e + f + g, h);
    lemma_ordinary_is_no_castling(queen.spec_moves(board, from));
}

/// Ordinary moves are no castling.
pub proof fn lemma_ordinary_is_no_castling(moves: Seq<Move>)
    requires
        all_ordinary(moves),
    ensures
        no_castling(moves),
{
}

/// Only a king is offered castling.
pub proof fn lemma_only_kings_castle(board: BoardView, from: Position)
    requires
        board.squares.contains_key(from),
        !(board.squares[from] is King),
    ensures
        no_castling(board.pseudo_legal_moves(from)),
{
    match board.squares[from] {
        Piece::Pawn(p) => {
            lemma_pawns_do_not_castle(board, p, from);
        },
        Piece::Knight(p) => {
            lemma_knights_do_not_castle(board, p, from);
        },
        Piece::Bishop(p) => {
            lemma_diagonal_slides_are_ordinary(board, p.player, from);
            lemma_ordinary_is_no_castling(p.spec_moves(board, from));
        },
        Piece::Rook(p) => {
            lemma_straight_slides_are_ordinary(board, p.player, from);
            lemma_ordinary_is_no_castling(p.spec_moves(board, from));
        },
        Piece::Queen(p) => {
            lemma_queens_do_not_castle(board, p, from);
        },
        Piece::King(p) => {},
    }
}

/// Whether every one of `moves` is an ordinary move.
pub open spec fn all_ordinary(moves: Seq<Move>) -> bool {
    forall|i: int| 0 <= i < moves.len() ==> (#[trigger] moves[i]) is Normal
}

/// Two lists of ordinary moves make one.
pub proof fn lemma_joined_ordinary(first: Seq<Move>, second: Seq<Move>)
    requires
        all_ordinary(first),
        all_ordinary(second),
    ensures
        all_ordinary(first + second),
{
}

/// Every move along a ray is an ordinary move.
pub proof fn lemma_ray_is_ordinary(
    board: BoardView,
    color: Player,
    from: Position,
    position: Position,
    direction: Direction,
)
    requires
        direction.is_heading(),
    ensures
        all_ordinary(board.ray(color, from, position, direction)),
    decreases direction.room(position),
{
    if Board::is_inside(position) && board.is_empty(position) {
        lemma_ray_is_ordinary(board, color, from, position.plus(direction), direction);
    }
}

/// The moves along the rows and columns are ordinary moves.
pub proof fn lemma_straight_slides_are_ordinary(board: BoardView, color: Player, from: Position)
    ensures
        all_ordinary(board.slide(color, from, Direction::north())),
        all_ordinary(board.slide(color, from, Direction::south())),
        all_ordinary(board.slide(color, from, Direction::east())),
        all_ordinary(board.slide(color, from, Direction::west())),
        all_ordinary(
            board.slide(color, from, Direction::north()) + board.slide(color, from, Direction::south())
                + board.slide(color, from, Direction::east()) + board.slide(
                color,
                from,
                Direction::west(),
            ),
        ),
{
    let n = board.slide(color, from, Direction::north());
    let s = board.slide(color, from, Direction::south());
    let e = board.slide(color, from, Direction::east());
    let w = board.slide(color, from, Direction::west());
    lemma_ray_is_ordinary(board, color, from, from.plus(Direction::north()), Direction::north());
    lemma_ray_is_ordinary(board, color, from, from.plus(Direction::south()), Direction::south());
    lemma_ray_is_ordinary(board, color, from, from.plus(Direction::east()), Direction::east());
    lemma_ray_is_ordinary(board, color, from, from.plus(Direction::west()), Direction::west());
    lemma_joined_ordinary(n, s);
    lemma_joined_ordinary(n + s, e);
    lemma_joined_ordinary(n + s + e, w);
}

/// The moves along the diagonals are ordinary moves.
pub proof fn lemma_diagonal_slides_are_ordinary(board: BoardView, color: Player, from: Position)
    ensures
        all_ordinary(board.slide(color, from, Direction::north_east())),
        all_ordinary(board.slide(color, from, Direction::north_west())),
        all_ordinary(board.slide(color, from, Direction::south_east())),
        all_ordinary(board.slide(color, from, Direction::south_west())),
        all_ordinary(
            board.slide(color, from, Direction::north_east()) + board.slide(
                color,
                from,
                Direction::north_west(),
            ) + board.slide(color, from, Direction::south_east()) + board.slide(
                color,
                from,
                Direction::south_west(),
            ),
        ),
{
    let a = board.slide(color, from, Direction::north_east());
    let b = board.slide(color, from, Direction::north_west());
    let c = board.slide(color, from, Direction::south_east());
    let d = board.slide(color, from, Direction::south_west());
    lemma_ray_is_ordinary(board, color, from, from.plus(Direction::north_east()), Direction::north_east());
    lemma_ray_is_ordinary(board, color, from, from.plus(Direction::north_west()), Direction::north_west());
    lemma_ray_is_ordinary(board, color, from, from.plus(Direction::south_east()), Direction::south_east());
    lemma_ray_is_ordinary(board, color, from, from.plus(Direction::south_west()), Direction::south_west());
    lemma_joined_ordinary(a, b);
    lemma_joined_ordinary(a + b, c);
    lemma_joined_ordinary(a + b + c, d);
}

/// Where a king that stands on its home row is offered castling, the move
/// can be carried out: the corner toward which the king goes holds the
/// rook.
pub proof fn lemma_castling_can_apply(board: BoardView, king: King, from: Position)
    requires
        Board::is_inside(from),
        board.squares.contains_key(from),
        king.has_moved || from.row == king.player.home_row(),
    ensures
        forall|i: int|
            0 <= i < king.castles(board, from).len() ==> (#[trigger] king.castles(board, from)[i]).can_apply(
                board,
            ),
{
    let row = king.player.home_row();
    if king.can_castle(board, from, Direction::west(), Position { column: 0, row }, 3) {
        assert(Board::is_inside(from.plus_times(Direction::west(), 2)));
    }
    if king.can_castle(board, from, Direction::east(), Position { column: 7, row }, 2) {
        assert(Board::is_inside(from.plus_times(Direction::east(), 2)));
    }
}

/// Castling ends on an empty square, so a king's castling moves add
/// nothing to what it threatens.
pub proof fn lemma_castling_takes_nothing(board: BoardView, from: Position, player: Player)
    requires
        Board::is_inside(from),
        board.squares.contains_key(from),
    ensures
        board.reaches_king(board.pseudo_legal_moves(from), player) == board.reaches_king(
            board.attacking_moves(from),
            player,
        ),
{
    match board.squares[from] {
        Piece::King(king) => {
            let steps = king.steps(board, from);
            let castles = king.castles(board, from);
            lemma_castling_ends_on_empty(board, king, from);
            lemma_joined_reach(board, steps, castles, player);
            assert(board.pseudo_legal_moves(from) == steps + castles);
            assert(board.attacking_moves(from) == steps);
        },
        _ => {
            assert(board.pseudo_legal_moves(from) == board.attacking_moves(from));
        },
    }
}

/// Castling ends on an empty square.
pub proof fn lemma_castling_ends_on_empty(board: BoardView, king: King, from: Position)
    ensures
        forall|i: int|
            0 <= i < king.castles(board, from).len() ==> board.is_empty(
                (#[trigger] king.castles(board, from)[i]).to_pos(),
            ),
{
    let row = king.player.home_row();
    if king.can_castle(board, from, Direction::west(), Position { column: 0, row }, 3) {
        assert(board.is_empty(from.plus_times(Direction::west(), 2)));
    }
    if king.can_castle(board, from, Direction::east(), Position { column: 7, row }, 2) {
        assert(board.is_empty(from.plus_times(Direction::east(), 2)));
    }
}

/// Moves that end on empty squares add nothing to what a list of moves
/// reaches.
pub proof fn lemma_joined_reach(board: BoardView, first: Seq<Move>, second: Seq<Move>, player: Player)
    requires
        forall|i: int| 0 <= i < second.len() ==> board.is_empty((#[trigger] second[i]).to_pos()),
    ensures
        board.reaches_king(first + second, player) == board.reaches_king(first, player),
{
    let all = first + second;
    if board.reaches_king(all, player) {
        let i = choose|i: int| 0 <= i < all.len() && board.is_king_of(#[trigger] all[i].to_pos(), player);
        if i >= first.len() {
            assert(all[i] == second[i - first.len()]);
        }
        assert(all[i] == first[i]);
    }
    if board.reaches_king(first, player) {
        let i = choose|i: int|
            0 <= i < first.len() && board.is_king_of(#[trigger] first[i].to_pos(), player);
        assert(all[i] == first[i]);
    }
}

/// The choice of a piece for a pawn leaves every unmoved king on its home
/// row, and every move that could be carried out can still be.
pub proof fn lemma_promotion_keeps_moves(board: BoardView, piece_type: PieceType, position: Position)
    requires
        board.squares.contains_key(position),
        piece_type == PieceType::Knight || piece_type == PieceType::Bishop || piece_type
            == PieceType::Rook || piece_type == PieceType::Queen,
    ensures
        ({
            let color = board.squares[position].color();
            let after = board.with_square(
                position,
                match piece_type {
                    PieceType::Knight => Some(Piece::Knight(Knight { player: color })),
                    PieceType::Bishop => Some(Piece::Bishop(crate::game::piece::bishop::Bishop { player: color })),
                    PieceType::Rook => Some(
                        Piece::Rook(crate::game::piece::rook::Rook { player: color, has_moved: false }),
                    ),
                    _ => Some(Piece::Queen(Queen { player: color })),
                },
            );
            &&& board.kings_at_home() ==> after.kings_at_home()
            &&& forall|piece_move: Move| #[trigger]
                piece_move.can_apply(board) ==> piece_move.can_apply(after)
        }),
{
}

/// No more pieces are counted than squares are looked at.
pub proof fn lemma_count_at_most(board: BoardView, wanted: spec_fn(Piece) -> bool, limit: nat)
    ensures
        board.count_below(wanted, limit) <= limit,
    decreases limit,
{
    if limit > 0 {
        lemma_count_at_most(board, wanted, (limit - 1) as nat);
    }
}

/// Where a piece is counted, one stands on the board.
pub proof fn lemma_counted_piece_exists(board: BoardView, wanted: spec_fn(Piece) -> bool, limit: nat)
    requires
        board.count_below(wanted, limit) > 0,
    ensures
        exists|p: Position| board.has_wanted(wanted, p),
    decreases limit,
{
    if limit > 0 {
        if !board.has_wanted(wanted, Board::square((limit - 1) as int)) {
            lemma_counted_piece_exists(board, wanted, (limit - 1) as nat);
        }
    }
}

/// Only one square is the first to hold a piece of a player and a kind.
pub proof fn lemma_first_is_one(
    board: BoardView,
    first: Position,
    player: Player,
    piece_type: PieceType,
)
    requires
        board.is_first(first, player, piece_type),
    ensures
        forall|p: Position| #[trigger] board.is_first(p, player, piece_type) ==> p == first,
{
    assert forall|p: Position| #[trigger] board.is_first(p, player, piece_type) implies p == first by {
        if p != first {
            assert(BoardView::comes_before(p, first) || BoardView::comes_before(first, p));
        }
    }
}

/// A count cannot grow where no square gains a wanted piece, and it falls
/// where one of the first `limit` squares loses one.
pub proof fn lemma_count_falls(
    before: BoardView,
    after: BoardView,
    wanted: spec_fn(Piece) -> bool,
    limit: nat,
    lost: int,
)
    requires
        forall|p: Position| after.has_wanted(wanted, p) ==> before.has_wanted(wanted, p),
    ensures
        after.count_below(wanted, limit) <= before.count_below(wanted, limit),
        0 <= lost < limit && before.has_wanted(wanted, Board::square(lost)) && !after.has_wanted(
            wanted,
            Board::square(lost),
        ) ==> after.count_below(wanted, limit) < before.count_below(wanted, limit),
    decreases limit,
{
    if limit > 0 {
        lemma_count_falls(before, after, wanted, (limit - 1) as nat, lost);
    }
}

/// A first step of a king onto an empty square leaves one unmoved king
/// fewer on the board.
pub proof fn lemma_king_step_lowers_count(board: BoardView, from: Position, to: Position)
    requires
        Board::is_inside(from),
        board.squares.contains_key(from),
        board.squares[from].is_unmoved_king(),
        board.is_empty(to),
    ensures
        (NormalMove { from_pos: from, to_pos: to }).apply(board).unmoved_kings()
            < board.unmoved_kings(),
{
    let after = (NormalMove { from_pos: from, to_pos: to }).apply(board);
    let wanted = |piece: Piece| piece.is_unmoved_king();
    let lost = from.column * 8 + from.row;
    assert(Board::square(lost) == from);
    assert forall|p: Position| after.has_wanted(wanted, p) implies board.has_wanted(wanted, p) by {}
    lemma_count_falls(board, after, wanted, 64, lost);
}

} // verus!
