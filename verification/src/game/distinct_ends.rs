//! Where the moves of a piece end: never on a piece of its own colour, and
//! no two of them on the same square. The steps of the proofs, piece by
//! piece.

use vstd::prelude::*;
use crate::game::board::{Board, BoardView};
use crate::game::direction::Direction;
use crate::game::piece::king::King;
use crate::game::piece::knight::Knight;
use crate::game::piece::pawn::Pawn;
use crate::game::piece::queen::Queen;
use crate::game::piece::Player;
use crate::game::piece_move::normal_move::NormalMove;
use crate::game::piece_move::Move;
use crate::game::position::Position;
use crate::game::proofs::lemma_castling_ends_on_empty;

verus! {

/// Whether no two of `moves` end on the same square.
pub open spec fn distinct_ends(moves: Seq<Move>) -> bool {
    forall|i: int, j: int|
        0 <= i < j < moves.len() ==> (#[trigger] moves[i]).to_pos() != (#[trigger] moves[j]).to_pos()
}

/// Whether no move of `first` ends where a move of `second` ends.
pub open spec fn apart(first: Seq<Move>, second: Seq<Move>) -> bool {
    forall|i: int, j: int|
        0 <= i < first.len() && 0 <= j < second.len() ==> (#[trigger] first[i]).to_pos() != (
        #[trigger] second[j]).to_pos()
}

/// Whether every one of `moves` ends in `area`.
pub open spec fn ends_within(moves: Seq<Move>, area: spec_fn(Position) -> bool) -> bool {
    forall|i: int| 0 <= i < moves.len() ==> area((#[trigger] moves[i]).to_pos())
}

/// The squares that lie from `from` the way `direction` points: to the
/// same side along the columns, and to the same side along the rows.
pub open spec fn toward(from: Position, direction: Direction) -> spec_fn(Position) -> bool {
    |to: Position|
        {
            &&& direction.column_delta > 0 ==> to.column > from.column
            &&& direction.column_delta < 0 ==> to.column < from.column
            &&& direction.column_delta == 0 ==> to.column == from.column
            &&& direction.row_delta > 0 ==> to.row > from.row
            &&& direction.row_delta < 0 ==> to.row < from.row
            &&& direction.row_delta == 0 ==> to.row == from.row
        }
}

/// The one square `square`.
pub open spec fn only(square: Position) -> spec_fn(Position) -> bool {
    |to: Position| to == square
}

/// Two lists with distinct ends that lie apart make one list with distinct
/// ends.
pub proof fn lemma_joined_distinct(first: Seq<Move>, second: Seq<Move>)
    requires
        distinct_ends(first),
        distinct_ends(second),
        apart(first, second),
    ensures
        distinct_ends(first + second),
{
    let all = first + second;
    assert forall|i: int, j: int| 0 <= i < j < all.len() implies (#[trigger] all[i]).to_pos() != (
    #[trigger] all[j]).to_pos() by {
        if j < first.len() {
            assert(all[i] == first[i] && all[j] == first[j]);
        } else if i < first.len() {
            assert(all[i] == first[i] && all[j] == second[j - first.len()]);
        } else {
            assert(all[i] == second[i - first.len()] && all[j] == second[j - first.len()]);
        }
    }
}

/// What lies apart from both of two lists lies apart from the two joined.
pub proof fn lemma_joined_apart(first: Seq<Move>, second: Seq<Move>, other: Seq<Move>)
    requires
        apart(first, other),
        apart(second, other),
    ensures
        apart(first + second, other),
{
    let all = first + second;
    assert forall|i: int, j: int| 0 <= i < all.len() && 0 <= j < other.len() implies (
    #[trigger] all[i]).to_pos() != (#[trigger] other[j]).to_pos() by {
        if i < first.len() {
            assert(all[i] == first[i]);
        } else {
            assert(all[i] == second[i - first.len()]);
        }
    }
}

/// Lists whose moves end in areas that share no square lie apart.
pub proof fn lemma_apart_by_area(
    first: Seq<Move>,
    second: Seq<Move>,
    here: spec_fn(Position) -> bool,
    there: spec_fn(Position) -> bool,
)
    requires
        ends_within(first, here),
        ends_within(second, there),
        forall|p: Position| !(#[trigger] here(p) && there(p)),
    ensures
        apart(first, second),
{
}

/// What holds of the ends of two lists holds of the ends of the two
/// joined.
pub proof fn lemma_joined_within(first: Seq<Move>, second: Seq<Move>, area: spec_fn(Position) -> bool)
    requires
        ends_within(first, area),
        ends_within(second, area),
    ensures
        ends_within(first + second, area),
{
}

/// The squares that are empty or hold a piece of the other colour than
/// `color`.
pub open spec fn open_to(board: BoardView, color: Player) -> spec_fn(Position) -> bool {
    |to: Position| board.is_empty(to) || board.squares[to].color() != color
}

/// The moves along a ray end on empty squares or on a piece of the other
/// colour.
pub proof fn lemma_ray_takes_the_other_colour(
    board: BoardView,
    color: Player,
    from: Position,
    position: Position,
    direction: Direction,
)
    requires
        direction.is_heading(),
    ensures
        ends_within(board.ray(color, from, position, direction), open_to(board, color)),
    decreases direction.room(position),
{
    if Board::is_inside(position) && board.is_empty(position) {
        lemma_ray_takes_the_other_colour(board, color, from, position.plus(direction), direction);
    }
}

/// A piece that slides along the rows and columns is offered no move onto
/// a piece of its own colour.
pub proof fn lemma_straight_slides_take_the_other_colour(
    board: BoardView,
    color: Player,
    from: Position,
)
    ensures
        ends_within(straight_slides(board, color, from), open_to(board, color)),
{
    let area = open_to(board, color);
    let n = board.slide(color, from, Direction::north());
    let s = board.slide(color, from, Direction::south());
    let e = board.slide(color, from, Direction::east());
    let w = board.slide(color, from, Direction::west());
    lemma_ray_takes_the_other_colour(
        board,
        color,
        from,
        from.plus(Direction::north()),
        Direction::north(),
    );
    lemma_ray_takes_the_other_colour(
        board,
        color,
        from,
        from.plus(Direction::south()),
        Direction::south(),
    );
    lemma_ray_takes_the_other_colour(
        board,
        color,
        from,
        from.plus(Direction::east()),
        Direction::east(),
    );
    lemma_ray_takes_the_other_colour(
        board,
        color,
        from,
        from.plus(Direction::west()),
        Direction::west(),
    );
    lemma_joined_within(n, s, area);
    lemma_joined_within(n + s, e, area);
    lemma_joined_within(n + s + e, w, area);
}

/// A piece that slides along the diagonals is offered no move onto a piece
/// of its own colour.
pub proof fn lemma_diagonal_slides_take_the_other_colour(
    board: BoardView,
    color: Player,
    from: Position,
)
    ensures
        ends_within(diagonal_slides(board, color, from), open_to(board, color)),
{
    let area = open_to(board, color);
    let ne = board.slide(color, from, Direction::north_east());
    let nw = board.slide(color, from, Direction::north_west());
    let se = board.slide(color, from, Direction::south_east());
    let sw = board.slide(color, from, Direction::south_west());
    lemma_ray_takes_the_other_colour(
        board,
        color,
        from,
        from.plus(Direction::north_east()),
        Direction::north_east(),
    );
    lemma_ray_takes_the_other_colour(
        board,
        color,
        from,
        from.plus(Direction::north_west()),
        Direction::north_west(),
    );
    lemma_ray_takes_the_other_colour(
        board,
        color,
        from,
        from.plus(Direction::south_east()),
        Direction::south_east(),
    );
    lemma_ray_takes_the_other_colour(
        board,
        color,
        from,
        from.plus(Direction::south_west()),
        Direction::south_west(),
    );
    lemma_joined_within(ne, nw, area);
    lemma_joined_within(ne + nw, se, area);
    lemma_joined_within(ne + nw + se, sw, area);
}

/// A queen is offered no move onto a piece of its own colour.
pub proof fn lemma_queen_takes_the_other_colour(board: BoardView, queen: Queen, from: Position)
    ensures
        ends_within(queen.spec_moves(board, from), open_to(board, queen.player)),
{
    let color = queen.player;
    let area = open_to(board, color);
    let n = board.slide(color, from, Direction::north());
    let nw = board.slide(color, from, Direction::north_west());
    let w = board.slide(color, from, Direction::west());
    let sw = board.slide(color, from, Direction::south_west());
    let s = board.slide(color, from, Direction::south());
    let se = board.slide(color, from, Direction::south_east());
    let e = board.slide(color, from, Direction::east());
    let ne = board.slide(color, from, Direction::north_east());
    lemma_ray_takes_the_other_colour(
        board,
        color,
        from,
        from.plus(Direction::north()),
        Direction::north(),
    );
    lemma_ray_takes_the_other_colour(
        board,
        color,
        from,
        from.plus(Direction::north_west()),
        Direction::north_west(),
    );
    lemma_ray_takes_the_other_colour(
        board,
        color,
        from,
        from.plus(Direction::west()),
        Direction::west(),
    );
    lemma_ray_takes_the_other_colour(
        board,
        color,
        from,
        from.plus(Direction::south_west()),
        Direction::south_west(),
    );
    lemma_ray_takes_the_other_colour(
        board,
        color,
        from,
        from.plus(Direction::south()),
        Direction::south(),
    );
    lemma_ray_takes_the_other_colour(
        board,
        color,
        from,
        from.plus(Direction::south_east()),
        Direction::south_east(),
    );
    lemma_ray_takes_the_other_colour(
        board,
        color,
        from,
        from.plus(Direction::east()),
        Direction::east(),
    );
    lemma_ray_takes_the_other_colour(
        board,
        color,
        from,
        from.plus(Direction::north_east()),
        Direction::north_east(),
    );
    lemma_joined_within(n, nw, area);
    lemma_joined_within(n + nw, w, area);
    lemma_joined_within(n + nw + w, sw, area);
    lemma_joined_within(n + nw + w + sw, s, area);
    lemma_joined_within(n + nw + w + sw + s, se, area);
    lemma_joined_within(n + nw + w + sw + s + se, e, area);
    lemma_joined_within(n + nw + w + sw + s + se + e, ne, area);
}

/// A knight is offered no move onto a piece of its own colour.
pub proof fn lemma_knight_takes_the_other_colour(board: BoardView, knight: Knight, from: Position)
    ensures
        ends_within(knight.spec_moves(board, from), open_to(board, knight.player)),
{
    let area = open_to(board, knight.player);
    let a = knight.leap(board, from, Direction { column_delta: 1, row_delta: -2i32 });
    let b = knight.leap(board, from, Direction { column_delta: 2, row_delta: -1i32 });
    let c = knight.leap(board, from, Direction { column_delta: -1i32, row_delta: -2i32 });
    let d = knight.leap(board, from, Direction { column_delta: -2i32, row_delta: -1i32 });
    let e = knight.leap(board, from, Direction { column_delta: 1, row_delta: 2 });
    let f = knight.leap(board, from, Direction { column_delta: 2, row_delta: 1 });
    let g = knight.leap(board, from, Direction { column_delta: -1i32, row_delta: 2 });
    let h = knight.leap(board, from, Direction { column_delta: -2i32, row_delta: 1 });
    assert(ends_within(a, area));
    assert(ends_within(b, area));
    assert(ends_within(c, area));
    assert(ends_within(d, area));
    assert(ends_within(e, area));
    assert(ends_within(f, area));
    assert(ends_within(g, area));
    assert(ends_within(h, area));
    lemma_joined_within(a, b, area);
    lemma_joined_within(a + b, c, area);
    lemma_joined_within(a + b + c, d, area);
    lemma_joined_within(a + b + c + d, e, area);
    lemma_joined_within(a + b + c + d + e, f, area);
    lemma_joined_within(a + b + c + d + e + f, g, area);
    lemma_joined_within(a + b + c + d + e + f + g, h, area);
}

/// A pawn is offered no move onto a piece of its own colour.
pub proof fn lemma_pawn_takes_the_other_colour(board: BoardView, pawn: Pawn, from: Position)
    ensures
        ends_within(pawn.spec_moves(board, from), open_to(board, pawn.player)),
{
    let area = open_to(board, pawn.player);
    let forward = pawn.player.forward();
    let a = Pawn::quiet(
        board,
        from,
        Move::Normal(NormalMove { from_pos: from, to_pos: from.plus(forward) }),
    );
    let b = pawn.double_step(board, from);
    let c = pawn.passing_capture(board, from);
    let d = pawn.strike(board, from, pawn.west_of_ahead(from));
    let e = pawn.strike(board, from, pawn.east_of_ahead(from));
    assert(ends_within(a, area));
    assert(ends_within(b, area));
    assert(ends_within(c, area));
    assert(ends_within(d, area));
    assert(ends_within(e, area));
    lemma_joined_within(a, b, area);
    lemma_joined_within(a + b, c, area);
    lemma_joined_within(a + b + c, d, area);
    lemma_joined_within(a + b + c + d, e, area);
}

/// A king is offered no step onto a piece of its own colour.
pub proof fn lemma_king_steps_take_the_other_colour(board: BoardView, king: King, from: Position)
    ensures
        ends_within(king.steps(board, from), open_to(board, king.player)),
{
    let area = open_to(board, king.player);
    let a = board.hop(king.player, from, from.plus(Direction::north()));
    let b = board.hop(king.player, from, from.plus(Direction::north_west()));
    let c = board.hop(king.player, from, from.plus(Direction::west()));
    let d = board.hop(king.player, from, from.plus(Direction::south_west()));
    let e = board.hop(king.player, from, from.plus(Direction::south()));
    let f = board.hop(king.player, from, from.plus(Direction::south_east()));
    let g = board.hop(king.player, from, from.plus(Direction::east()));
    let h = board.hop(king.player, from, from.plus(Direction::north_east()));
    assert(ends_within(a, area));
    assert(ends_within(b, area));
    assert(ends_within(c, area));
    assert(ends_within(d, area));
    assert(ends_within(e, area));
    assert(ends_within(f, area));
    assert(ends_within(g, area));
    assert(ends_within(h, area));
    lemma_joined_within(a, b, area);
    lemma_joined_within(a + b, c, area);
    lemma_joined_within(a + b + c, d, area);
    lemma_joined_within(a + b + c + d, e, area);
    lemma_joined_within(a + b + c + d + e, f, area);
    lemma_joined_within(a + b + c + d + e + f, g, area);
    lemma_joined_within(a + b + c + d + e + f + g, h, area);
}

/// A king is offered no move onto a piece of its own colour.
pub proof fn lemma_king_takes_the_other_colour(board: BoardView, king: King, from: Position)
    ensures
        ends_within(king.steps(board, from), open_to(board, king.player)),
        ends_within(
            king.steps(board, from) + king.castles(board, from),
            open_to(board, king.player),
        ),
{
    lemma_king_steps_take_the_other_colour(board, king, from);
    lemma_castling_ends_on_empty(board, king, from);
    assert(ends_within(king.castles(board, from), open_to(board, king.player)));
    lemma_joined_within(
        king.steps(board, from),
        king.castles(board, from),
        open_to(board, king.player),
    );
}

/// The moves along a ray have distinct ends, all of which lie the way the
/// ray goes, seen from where the sliding piece has come to.
pub proof fn lemma_ray_distinct(
    board: BoardView,
    color: Player,
    from: Position,
    position: Position,
    direction: Direction,
)
    requires
        direction.is_heading(),
    ensures
        distinct_ends(board.ray(color, from, position, direction)),
        forall|i: int|
            0 <= i < board.ray(color, from, position, direction).len() ==> {
                let to = (#[trigger] board.ray(color, from, position, direction)[i]).to_pos();
                to == position || toward(position, direction)(to)
            },
    decreases direction.room(position),
{
    if Board::is_inside(position) && board.is_empty(position) {
        let rest = board.ray(color, from, position.plus(direction), direction);
        let moves = board.ray(color, from, position, direction);
        lemma_ray_distinct(board, color, from, position.plus(direction), direction);
        assert forall|i: int| 0 < i < moves.len() implies toward(position, direction)(
            (#[trigger] moves[i]).to_pos(),
        ) by {
            assert(moves[i] == rest[i - 1]);
        }
    }
}

/// The moves along one direction have distinct ends, all of which lie
/// that way from the piece.
pub proof fn lemma_slide_distinct(board: BoardView, color: Player, from: Position, direction: Direction)
    requires
        direction.is_heading(),
        from.can_step(direction),
    ensures
        distinct_ends(board.slide(color, from, direction)),
        ends_within(board.slide(color, from, direction), toward(from, direction)),
{
    lemma_ray_distinct(board, color, from, from.plus(direction), direction);
}

/// The moves of a piece that slides along the rows and columns have
/// distinct ends, none of which lies diagonally from the piece.
pub proof fn lemma_straight_slides_distinct(board: BoardView, color: Player, from: Position)
    requires
        Board::is_inside(from),
    ensures
        distinct_ends(straight_slides(board, color, from)),
        ends_within(
            straight_slides(board, color, from),
            |to: Position| to.column == from.column || to.row == from.row,
        ),
{
    let n = board.slide(color, from, Direction::north());
    let s = board.slide(color, from, Direction::south());
    let e = board.slide(color, from, Direction::east());
    let w = board.slide(color, from, Direction::west());
    lemma_slide_distinct(board, color, from, Direction::north());
    lemma_slide_distinct(board, color, from, Direction::south());
    lemma_slide_distinct(board, color, from, Direction::east());
    lemma_slide_distinct(board, color, from, Direction::west());
    lemma_apart_by_area(n, s, toward(from, Direction::north()), toward(from, Direction::south()));
    lemma_apart_by_area(n, e, toward(from, Direction::north()), toward(from, Direction::east()));
    lemma_apart_by_area(s, e, toward(from, Direction::south()), toward(from, Direction::east()));
    lemma_apart_by_area(n, w, toward(from, Direction::north()), toward(from, Direction::west()));
    lemma_apart_by_area(s, w, toward(from, Direction::south()), toward(from, Direction::west()));
    lemma_apart_by_area(e, w, toward(from, Direction::east()), toward(from, Direction::west()));
    lemma_joined_distinct(n, s);
    lemma_joined_apart(n, s, e);
    lemma_joined_distinct(n + s, e);
    lemma_joined_apart(n, s, w);
    lemma_joined_apart(n + s, e, w);
    lemma_joined_distinct(n + s + e, w);
}

/// The moves along the rows and columns, direction by direction.
pub open spec fn straight_slides(board: BoardView, color: Player, from: Position) -> Seq<Move> {
    board.slide(color, from, Direction::north()) + board.slide(color, from, Direction::south())
        + board.slide(color, from, Direction::east()) + board.slide(color, from, Direction::west())
}

/// The moves along the diagonals, direction by direction.
pub open spec fn diagonal_slides(board: BoardView, color: Player, from: Position) -> Seq<Move> {
    board.slide(color, from, Direction::north_east()) + board.slide(
        color,
        from,
        Direction::north_west(),
    ) + board.slide(color, from, Direction::south_east()) + board.slide(
        color,
        from,
        Direction::south_west(),
    )
}

/// The moves of a piece that slides along the diagonals have distinct
/// ends, none of which lies in the row or the column of the piece.
pub proof fn lemma_diagonal_slides_distinct(board: BoardView, color: Player, from: Position)
    requires
        Board::is_inside(from),
    ensures
        distinct_ends(diagonal_slides(board, color, from)),
        ends_within(
            diagonal_slides(board, color, from),
            |to: Position| to.column != from.column && to.row != from.row,
        ),
{
    let a = board.slide(color, from, Direction::north_east());
    let b = board.slide(color, from, Direction::north_west());
    let c = board.slide(color, from, Direction::south_east());
    let d = board.slide(color, from, Direction::south_west());
    lemma_slide_distinct(board, color, from, Direction::north_east());
    lemma_slide_distinct(board, color, from, Direction::north_west());
    lemma_slide_distinct(board, color, from, Direction::south_east());
    lemma_slide_distinct(board, color, from, Direction::south_west());
    lemma_apart_by_area(
        a,
        b,
        toward(from, Direction::north_east()),
        toward(from, Direction::north_west()),
    );
    lemma_apart_by_area(
        a,
        c,
        toward(from, Direction::north_east()),
        toward(from, Direction::south_east()),
    );
    lemma_apart_by_area(
        b,
        c,
        toward(from, Direction::north_west()),
        toward(from, Direction::south_east()),
    );
    lemma_apart_by_area(
        a,
        d,
        toward(from, Direction::north_east()),
        toward(from, Direction::south_west()),
    );
    lemma_apart_by_area(
        b,
        d,
        toward(from, Direction::north_west()),
        toward(from, Direction::south_west()),
    );
    lemma_apart_by_area(
        c,
        d,
        toward(from, Direction::south_east()),
        toward(from, Direction::south_west()),
    );
    lemma_joined_distinct(a, b);
    lemma_joined_apart(a, b, c);
    lemma_joined_distinct(a + b, c);
    lemma_joined_apart(a, b, d);
    lemma_joined_apart(a + b, c, d);
    lemma_joined_distinct(a + b + c, d);
}

/// The moves of a queen have distinct ends.
pub proof fn lemma_queen_moves_distinct(board: BoardView, queen: Queen, from: Position)
    requires
        Board::is_inside(from),
    ensures
        distinct_ends(queen.spec_moves(board, from)),
{
    let color = queen.player;
    let a = board.slide(color, from, Direction::north());
    let b = board.slide(color, from, Direction::north_west());
    let c = board.slide(color, from, Direction::west());
    let d = board.slide(color, from, Direction::south_west());
    let e = board.slide(color, from, Direction::south());
    let f = board.slide(color, from, Direction::south_east());
    let g = board.slide(color, from, Direction::east());
    let h = board.slide(color, from, Direction::north_east());
    lemma_slide_distinct(board, color, from, Direction::north());
    lemma_slide_distinct(board, color, from, Direction::north_west());
    lemma_slide_distinct(board, color, from, Direction::west());
    lemma_slide_distinct(board, color, from, Direction::south_west());
    lemma_slide_distinct(board, color, from, Direction::south());
    lemma_slide_distinct(board, color, from, Direction::south_east());
    lemma_slide_distinct(board, color, from, Direction::east());
    lemma_slide_distinct(board, color, from, Direction::north_east());
    lemma_apart_by_area(a, b, toward(from, Direction::north()), toward(from, Direction::north_west()));
    lemma_apart_by_area(a, c, toward(from, Direction::north()), toward(from, Direction::west()));
    lemma_apart_by_area(b, c, toward(from, Direction::north_west()), toward(from, Direction::west()));
    lemma_apart_by_area(a, d, toward(from, Direction::north()), toward(from, Direction::south_west()));
    lemma_apart_by_area(b, d, toward(from, Direction::north_west()), toward(from, Direction::south_west()));
    lemma_apart_by_area(c, d, toward(from, Direction::west()), toward(from, Direction::south_west()));
    lemma_apart_by_area(a, e, toward(from, Direction::north()), toward(from, Direction::south()));
    lemma_apart_by_area(b, e, toward(from, Direction::north_west()), toward(from, Direction::south()));
    lemma_apart_by_area(c, e, toward(from, Direction::west()), toward(from, Direction::south()));
    lemma_apart_by_area(d, e, toward(from, Direction::south_west()), toward(from, Direction::south()));
    lemma_apart_by_area(a, f, toward(from, Direction::north()), toward(from, Direction::south_east()));
    lemma_apart_by_area(b, f, toward(from, Direction::north_west()), toward(from, Direction::south_east()));
    lemma_apart_by_area(c, f, toward(from, Direction::west()), toward(from, Direction::south_east()));
    lemma_apart_by_area(d, f, toward(from, Direction::south_west()), toward(from, Direction::south_east()));
    lemma_apart_by_area(e, f, toward(from, Direction::south()), toward(from, Direction::south_east()));
    lemma_apart_by_area(a, g, toward(from, Direction::north()), toward(from, Direction::east()));
    lemma_apart_by_area(b, g, toward(from, Direction::north_west()), toward(from, Direction::east()));
    lemma_apart_by_area(c, g, toward(from, Direction::west()), toward(from, Direction::east()));
    lemma_apart_by_area(d, g, toward(from, Direction::south_west()), toward(from, Direction::east()));
    lemma_apart_by_area(e, g, toward(from, Direction::south()), toward(from, Direction::east()));
    lemma_apart_by_area(f, g, toward(from, Direction::south_east()), toward(from, Direction::east()));
    lemma_apart_by_area(a, h, toward(from, Direction::north()), toward(from, Direction::north_east()));
    lemma_apart_by_area(b, h, toward(from, Direction::north_west()), toward(from, Direction::north_east()));
    lemma_apart_by_area(c, h, toward(from, Direction::west()), toward(from, Direction::north_east()));
    lemma_apart_by_area(d, h, toward(from, Direction::south_west()), toward(from, Direction::north_east()));
    lemma_apart_by_area(e, h, toward(from, Direction::south()), toward(from, Direction::north_east()));
    lemma_apart_by_area(f, h, toward(from, Direction::south_east()), toward(from, Direction::north_east()));
    lemma_apart_by_area(g, h, toward(from, Direction::east()), toward(from, Direction::north_east()));
    lemma_joined_distinct(a, b);
    lemma_joined_apart(a, b, c);
    lemma_joined_distinct(a + b, c);
    lemma_joined_apart(a, b, d);
    lemma_joined_apart(a + b, c, d);
    lemma_joined_distinct(a + b + c, d);
    lemma_joined_apart(a, b, e);
    lemma_joined_apart(a + b, c, e);
    lemma_joined_apart(a + b + c, d, e);
    lemma_joined_distinct(a + b + c + d, e);
    lemma_joined_apart(a, b, f);
    lemma_joined_apart(a + b, c, f);
    lemma_joined_apart(a + b + c, d, f);
    lemma_joined_apart(a + b + c + d, e, f);
    lemma_joined_distinct(a + b + c + d + e, f);
    lemma_joined_apart(a, b, g);
    lemma_joined_apart(a + b, c, g);
    lemma_joined_apart(a + b + c, d, g);
    lemma_joined_apart(a + b + c + d, e, g);
    lemma_joined_apart(a + b + c + d + e, f, g);
    lemma_joined_distinct(a + b + c + d + e + f, g);
    lemma_joined_apart(a, b, h);
    lemma_joined_apart(a + b, c, h);
    lemma_joined_apart(a + b + c, d, h);
    lemma_joined_apart(a + b + c + d, e, h);
    lemma_joined_apart(a + b + c + d + e, f, h);
    lemma_joined_apart(a + b + c + d + e + f, g, h);
    lemma_joined_distinct(a + b + c + d + e + f + g, h);
}

/// The moves of a knight have distinct ends.
pub proof fn lemma_knight_moves_distinct(board: BoardView, knight: Knight, from: Position)
    requires
        Board::is_inside(from),
    ensures
        distinct_ends(knight.spec_moves(board, from)),
{
    let a_to = from.plus(Direction { column_delta: 1, row_delta: -2i32 });
    let a = board.hop(knight.player, from, a_to);
    let b_to = from.plus(Direction { column_delta: 2, row_delta: -1i32 });
    let b = board.hop(knight.player, from, b_to);
    let c_to = from.plus(Direction { column_delta: -1i32, row_delta: -2i32 });
    let c = board.hop(knight.player, from, c_to);
    let d_to = from.plus(Direction { column_delta: -2i32, row_delta: -1i32 });
    let d = board.hop(knight.player, from, d_to);
    let e_to = from.plus(Direction { column_delta: 1, row_delta: 2 });
    let e = board.hop(knight.player, from, e_to);
    let f_to = from.plus(Direction { column_delta: 2, row_delta: 1 });
    let f = board.hop(knight.player, from, f_to);
    let g_to = from.plus(Direction { column_delta: -1i32, row_delta: 2 });
    let g = board.hop(knight.player, from, g_to);
    let h_to = from.plus(Direction { column_delta: -2i32, row_delta: 1 });
    let h = board.hop(knight.player, from, h_to);
    lemma_apart_by_area(a, b, only(a_to), only(b_to));
    lemma_apart_by_area(a, c, only(a_to), only(c_to));
    lemma_apart_by_area(b, c, only(b_to), only(c_to));
    lemma_apart_by_area(a, d, only(a_to), only(d_to));
    lemma_apart_by_area(b, d, only(b_to), only(d_to));
    lemma_apart_by_area(c, d, only(c_to), only(d_to));
    lemma_apart_by_area(a, e, only(a_to), only(e_to));
    lemma_apart_by_area(b, e, only(b_to), only(e_to));
    lemma_apart_by_area(c, e, only(c_to), only(e_to));
    lemma_apart_by_area(d, e, only(d_to), only(e_to));
    lemma_apart_by_area(a, f, only(a_to), only(f_to));
    lemma_apart_by_area(b, f, only(b_to), only(f_to));
    lemma_apart_by_area(c, f, only(c_to), only(f_to));
    lemma_apart_by_area(d, f, only(d_to), only(f_to));
    lemma_apart_by_area(e, f, only(e_to), only(f_to));
    lemma_apart_by_area(a, g, only(a_to), only(g_to));
    lemma_apart_by_area(b, g, only(b_to), only(g_to));
    lemma_apart_by_area(c, g, only(c_to), only(g_to));
    lemma_apart_by_area(d, g, only(d_to), only(g_to));
    lemma_apart_by_area(e, g, only(e_to), only(g_to));
    lemma_apart_by_area(f, g, only(f_to), only(g_to));
    lemma_apart_by_area(a, h, only(a_to), only(h_to));
    lemma_apart_by_area(b, h, only(b_to), only(h_to));
    lemma_apart_by_area(c, h, only(c_to), only(h_to));
    lemma_apart_by_area(d, h, only(d_to), only(h_to));
    lemma_apart_by_area(e, h, only(e_to), only(h_to));
    lemma_apart_by_area(f, h, only(f_to), only(h_to));
    lemma_apart_by_area(g, h, only(g_to), only(h_to));
    lemma_joined_distinct(a, b);
    lemma_joined_apart(a, b, c);
    lemma_joined_distinct(a + b, c);
    lemma_joined_apart(a, b, d);
    lemma_joined_apart(a + b, c, d);
    lemma_joined_distinct(a + b + c, d);
    lemma_joined_apart(a, b, e);
    lemma_joined_apart(a + b, c, e);
    lemma_joined_apart(a + b + c, d, e);
    lemma_joined_distinct(a + b + c + d, e);
    lemma_joined_apart(a, b, f);
    lemma_joined_apart(a + b, c, f);
    lemma_joined_apart(a + b + c, d, f);
    lemma_joined_apart(a + b + c + d, e, f);
    lemma_joined_distinct(a + b + c + d + e, f);
    lemma_joined_apart(a, b, g);
    lemma_joined_apart(a + b, c, g);
    lemma_joined_apart(a + b + c, d, g);
    lemma_joined_apart(a + b + c + d, e, g);
    lemma_joined_apart(a + b + c + d + e, f, g);
    lemma_joined_distinct(a + b + c + d + e + f, g);
    lemma_joined_apart(a, b, h);
    lemma_joined_apart(a + b, c, h);
    lemma_joined_apart(a + b + c, d, h);
    lemma_joined_apart(a + b + c + d, e, h);
    lemma_joined_apart(a + b + c + d + e, f, h);
    lemma_joined_apart(a + b + c + d + e + f, g, h);
    lemma_joined_distinct(a + b + c + d + e + f + g, h);
}

/// The moves of a king, castling included, have distinct ends.
pub proof fn lemma_king_moves_distinct(board: BoardView, king: King, from: Position)
    requires
        Board::is_inside(from),
    ensures
        distinct_ends(king.steps(board, from) + king.castles(board, from)),
{
    let a_to = from.plus(Direction::north());
    let a = board.hop(king.player, from, a_to);
    let b_to = from.plus(Direction::north_west());
    let b = board.hop(king.player, from, b_to);
    let c_to = from.plus(Direction::west());
    let c = board.hop(king.player, from, c_to);
    let d_to = from.plus(Direction::south_west());
    let d = board.hop(king.player, from, d_to);
    let e_to = from.plus(Direction::south());
    let e = board.hop(king.player, from, e_to);
    let f_to = from.plus(Direction::south_east());
    let f = board.hop(king.player, from, f_to);
    let g_to = from.plus(Direction::east());
    let g = board.hop(king.player, from, g_to);
    let h_to = from.plus(Direction::north_east());
    let h = board.hop(king.player, from, h_to);
    let row = king.player.home_row();
    let west_to = from.plus_times(Direction::west(), 2);
    let west_castle = king.castle(board, from, Direction::west(), Position { column: 0, row }, 3);
    let east_to = from.plus_times(Direction::east(), 2);
    let east_castle = king.castle(board, from, Direction::east(), Position { column: 7, row }, 2);
    lemma_apart_by_area(a, b, only(a_to), only(b_to));
    lemma_apart_by_area(a, c, only(a_to), only(c_to));
    lemma_apart_by_area(b, c, only(b_to), only(c_to));
    lemma_apart_by_area(a, d, only(a_to), only(d_to));
    lemma_apart_by_area(b, d, only(b_to), only(d_to));
    lemma_apart_by_area(c, d, only(c_to), only(d_to));
    lemma_apart_by_area(a, e, only(a_to), only(e_to));
    lemma_apart_by_area(b, e, only(b_to), only(e_to));
    lemma_apart_by_area(c, e, only(c_to), only(e_to));
    lemma_apart_by_area(d, e, only(d_to), only(e_to));
    lemma_apart_by_area(a, f, only(a_to), only(f_to));
    lemma_apart_by_area(b, f, only(b_to), only(f_to));
    lemma_apart_by_area(c, f, only(c_to), only(f_to));
    lemma_apart_by_area(d, f, only(d_to), only(f_to));
    lemma_apart_by_area(e, f, only(e_to), only(f_to));
    lemma_apart_by_area(a, g, only(a_to), only(g_to));
    lemma_apart_by_area(b, g, only(b_to), only(g_to));
    lemma_apart_by_area(c, g, only(c_to), only(g_to));
    lemma_apart_by_area(d, g, only(d_to), only(g_to));
    lemma_apart_by_area(e, g, only(e_to), only(g_to));
    lemma_apart_by_area(f, g, only(f_to), only(g_to));
    lemma_apart_by_area(a, h, only(a_to), only(h_to));
    lemma_apart_by_area(b, h, only(b_to), only(h_to));
    lemma_apart_by_area(c, h, only(c_to), only(h_to));
    lemma_apart_by_area(d, h, only(d_to), only(h_to));
    lemma_apart_by_area(e, h, only(e_to), only(h_to));
    lemma_apart_by_area(f, h, only(f_to), only(h_to));
    lemma_apart_by_area(g, h, only(g_to), only(h_to));
    lemma_apart_by_area(a, west_castle, only(a_to), only(west_to));
    lemma_apart_by_area(b, west_castle, only(b_to), only(west_to));
    lemma_apart_by_area(c, west_castle, only(c_to), only(west_to));
    lemma_apart_by_area(d, west_castle, only(d_to), only(west_to));
    lemma_apart_by_area(e, west_castle, only(e_to), only(west_to));
    lemma_apart_by_area(f, west_castle, only(f_to), only(west_to));
    lemma_apart_by_area(g, west_castle, only(g_to), only(west_to));
    lemma_apart_by_area(h, west_castle, only(h_to), only(west_to));
    lemma_apart_by_area(a, east_castle, only(a_to), only(east_to));
    lemma_apart_by_area(b, east_castle, only(b_to), only(east_to));
    lemma_apart_by_area(c, east_castle, only(c_to), only(east_to));
    lemma_apart_by_area(d, east_castle, only(d_to), only(east_to));
    lemma_apart_by_area(e, east_castle, only(e_to), only(east_to));
    lemma_apart_by_area(f, east_castle, only(f_to), only(east_to));
    lemma_apart_by_area(g, east_castle, only(g_to), only(east_to));
    lemma_apart_by_area(h, east_castle, only(h_to), only(east_to));
    lemma_apart_by_area(west_castle, east_castle, only(west_to), only(east_to));
    lemma_joined_distinct(a, b);
    lemma_joined_apart(a, b, c);
    lemma_joined_distinct(a + b, c);
    lemma_joined_apart(a, b, d);
    lemma_joined_apart(a + b, c, d);
    lemma_joined_distinct(a + b + c, d);
    lemma_joined_apart(a, b, e);
    lemma_joined_apart(a + b, c, e);
    lemma_joined_apart(a + b + c, d, e);
    lemma_joined_distinct(a + b + c + d, e);
    lemma_joined_apart(a, b, f);
    lemma_joined_apart(a + b, c, f);
    lemma_joined_apart(a + b + c, d, f);
    lemma_joined_apart(a + b + c + d, e, f);
    lemma_joined_distinct(a + b + c + d + e, f);
    lemma_joined_apart(a, b, g);
    lemma_joined_apart(a + b, c, g);
    lemma_joined_apart(a + b + c, d, g);
    lemma_joined_apart(a + b + c + d, e, g);
    lemma_joined_apart(a + b + c + d + e, f, g);
    lemma_joined_distinct(a + b + c + d + e + f, g);
    lemma_joined_apart(a, b, h);
    lemma_joined_apart(a + b, c, h);
    lemma_joined_apart(a + b + c, d, h);
    lemma_joined_apart(a + b + c + d, e, h);
    lemma_joined_apart(a + b + c + d + e, f, h);
    lemma_joined_apart(a + b + c + d + e + f, g, h);
    lemma_joined_distinct(a + b + c + d + e + f + g, h);
    lemma_joined_apart(a, b, west_castle);
    lemma_joined_apart(a + b, c, west_castle);
    lemma_joined_apart(a + b + c, d, west_castle);
    lemma_joined_apart(a + b + c + d, e, west_castle);
    lemma_joined_apart(a + b + c + d + e, f, west_castle);
    lemma_joined_apart(a + b + c + d + e + f, g, west_castle);
    lemma_joined_apart(a + b + c + d + e + f + g, h, west_castle);
    lemma_joined_distinct(a + b + c + d + e + f + g + h, west_castle);
    lemma_joined_apart(a, b, east_castle);
    lemma_joined_apart(a + b, c, east_castle);
    lemma_joined_apart(a + b + c, d, east_castle);
    lemma_joined_apart(a + b + c + d, e, east_castle);
    lemma_joined_apart(a + b + c + d + e, f, east_castle);
    lemma_joined_apart(a + b + c + d + e + f, g, east_castle);
    lemma_joined_apart(a + b + c + d + e + f + g, h, east_castle);
    lemma_joined_apart(a + b + c + d + e + f + g + h, west_castle, east_castle);
    lemma_joined_distinct(a + b + c + d + e + f + g + h + west_castle, east_castle);
    assert(king.steps(board, from) + king.castles(board, from) =~= a + b + c + d + e + f + g + h
        + west_castle + east_castle);
}

/// The moves of a pawn have distinct ends: the capture en passant ends on
/// an empty square, and the other captures on pieces.
pub proof fn lemma_pawn_moves_distinct(board: BoardView, pawn: Pawn, from: Position)
    requires
        Board::is_inside(from),
    ensures
        distinct_ends(pawn.spec_moves(board, from)),
{
    let forward = pawn.player.forward();
    let ahead = from.plus(forward);
    let a = Pawn::quiet(board, from, Move::Normal(NormalMove { from_pos: from, to_pos: ahead }));
    let b = pawn.double_step(board, from);
    let c = pawn.passing_capture(board, from);
    let d = pawn.strike(board, from, pawn.west_of_ahead(from));
    let e = pawn.strike(board, from, pawn.east_of_ahead(from));
    let beside = |to: Position| to.column != from.column;
    let empty = |to: Position| board.is_empty(to) && to.column != from.column;
    let taken = |to: Position| !board.is_empty(to);
    assert(ends_within(a, only(ahead)));
    assert(ends_within(b, only(from.plus_times(forward, 2))));
    assert(ends_within(c, empty));
    assert(ends_within(d, only(pawn.west_of_ahead(from))) && ends_within(d, taken));
    assert(ends_within(e, only(pawn.east_of_ahead(from))) && ends_within(e, taken));
    lemma_apart_by_area(a, b, only(ahead), only(from.plus_times(forward, 2)));
    lemma_apart_by_area(a, c, only(ahead), empty);
    lemma_apart_by_area(b, c, only(from.plus_times(forward, 2)), empty);
    lemma_apart_by_area(a, d, only(ahead), only(pawn.west_of_ahead(from)));
    lemma_apart_by_area(b, d, only(from.plus_times(forward, 2)), only(pawn.west_of_ahead(from)));
    lemma_apart_by_area(c, d, empty, taken);
    lemma_apart_by_area(a, e, only(ahead), only(pawn.east_of_ahead(from)));
    lemma_apart_by_area(b, e, only(from.plus_times(forward, 2)), only(pawn.east_of_ahead(from)));
    lemma_apart_by_area(c, e, empty, taken);
    lemma_apart_by_area(d, e, only(pawn.west_of_ahead(from)), only(pawn.east_of_ahead(from)));
    lemma_joined_distinct(a, b);
    lemma_joined_apart(a, b, c);
    lemma_joined_distinct(a + b, c);
    lemma_joined_apart(a, b, d);
    lemma_joined_apart(a + b, c, d);
    lemma_joined_distinct(a + b + c, d);
    lemma_joined_apart(a, b, e);
    lemma_joined_apart(a + b, c, e);
    lemma_joined_apart(a + b + c, d, e);
    lemma_joined_distinct(a + b + c + d, e);
}

/// What is kept of a list with distinct ends has distinct ends.
pub proof fn lemma_filtered_distinct(moves: Seq<Move>, kept: spec_fn(Move) -> bool)
    requires
        distinct_ends(moves),
    ensures
        distinct_ends(moves.filter(kept)),
    decreases moves.len(),
{
    reveal(Seq::filter);
    if moves.len() > 0 {
        let before = moves.drop_last();
        lemma_filtered_distinct(before, kept);
        if kept(moves.last()) {
            let chosen = before.filter(kept);
            assert forall|i: int| 0 <= i < chosen.len() implies (#[trigger] chosen[i]).to_pos()
                != moves.last().to_pos() by {
                assert(chosen.contains(chosen[i]));
                before.lemma_filter_contains_rev(kept, chosen[i]);
                let k = choose|k: int| 0 <= k < before.len() && before[k] == chosen[i];
                assert(moves[k] == before[k]);
            }
        }
    }
}

} // verus!
