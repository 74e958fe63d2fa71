//! The movement rules, stated over squares and occupants alone.
//!
//! Squares are those of the model of a position; the occupants of a board
//! are the colour and the square of each of its pieces.
//!
//! A board is meant to hold at most one piece on a square, and nothing
//! enforces it. The rules are stated for every list of occupants all the same.
//! Pawn, knight and king ask whether a piece of some colour stands on a
//! square; the sliding pieces ask which piece is seen there, and of several on
//! one square that is the one listed last. With one piece to a square the two
//! questions have one answer.

use crate::board::{
    lemma_occupant_occupied, lemma_occupied_by_push, occupant, occupied, occupied_by, Occupants,
};
use crate::piece::Color;
use crate::position::{offset, on_board, MoveDirection, Position, Square};
use vstd::prelude::*;

verus! {

/// The other colour.
pub open spec fn opponent(color: Color) -> Color {
    match color {
        Color::Black => Color::White,
        Color::White => Color::Black,
    }
}

/// `to` is one of the up to eight squares of the board next to `from`.
pub open spec fn king_step(from: Square, to: Square) -> bool {
    match (from, to) {
        (Some((fx, fy)), Some((tx, ty))) => {
            &&& on_board(fx, fy)
            &&& on_board(tx, ty)
            &&& -1 <= tx - fx <= 1
            &&& -1 <= ty - fy <= 1
            &&& (tx != fx || ty != fy)
        },
        _ => false,
    }
}

/// A king of `color` on `from` may move to `to`: a neighbouring square that
/// holds no piece of its own colour.
pub open spec fn king_reaches(
    occupants: Occupants,
    color: Color,
    from: Square,
    to: Square,
) -> bool {
    king_step(from, to) && !occupied_by(occupants, color, to)
}

/// `to` is one of the up to eight squares of the board a knight's jump away
/// from `from`: two files and one rank, or one file and two ranks.
pub open spec fn knight_jump(from: Square, to: Square) -> bool {
    match (from, to) {
        (Some((fx, fy)), Some((tx, ty))) => {
            let dx = tx - fx;
            let dy = ty - fy;
            &&& on_board(fx, fy)
            &&& on_board(tx, ty)
            &&& {
                ||| (dx == 1 || dx == -1) && (dy == 2 || dy == -2)
                ||| (dx == 2 || dx == -2) && (dy == 1 || dy == -1)
            }
        },
        _ => false,
    }
}

/// A knight of `color` on `from` may move to `to`: a jump away, onto a square
/// that holds no piece of its own colour. What stands in between does not
/// matter.
pub open spec fn knight_reaches(
    occupants: Occupants,
    color: Color,
    from: Square,
    to: Square,
) -> bool {
    knight_jump(from, to) && !occupied_by(occupants, color, to)
}

/// A piece of the knight's own colour on one of its destinations takes that
/// destination away, and no other.
pub proof fn lemma_own_piece_blocks_knight(
    occupants: Occupants,
    color: Color,
    from: Square,
    blocked: Square,
    to: Square,
)
    requires
        knight_reaches(occupants, color, from, blocked),
    ensures
        !knight_reaches(occupants.push((color, blocked)), color, from, blocked),
        knight_reaches(occupants.push((color, blocked)), color, from, to) <==> knight_reaches(
            occupants,
            color,
            from,
            to,
        ) && to != blocked,
{
    lemma_occupied_by_push(occupants, (color, blocked), color, to);
    lemma_occupied_by_push(occupants, (color, blocked), color, blocked);
}

/// A piece of the other colour, wherever it stands, takes no destination away
/// from a knight and gives it none.
pub proof fn lemma_opponent_never_blocks_knight(
    occupants: Occupants,
    color: Color,
    from: Square,
    taken: Square,
    to: Square,
)
    ensures
        knight_reaches(occupants.push((opponent(color), taken)), color, from, to)
            <==> knight_reaches(occupants, color, from, to),
{
    lemma_occupied_by_push(occupants, (opponent(color), taken), color, to);
}

/// The change of rank of a pawn's step: up for White, down for Black.
pub open spec fn forward(color: Color) -> int {
    match color {
        Color::White => 1,
        Color::Black => -1,
    }
}

/// The rank on which the pawns of `color` start.
pub open spec fn home_rank(color: Color) -> int {
    match color {
        Color::White => 1,
        Color::Black => 6,
    }
}

/// A pawn of `color` on `from` may move to `to`:
/// one step forward onto an empty square;
/// one step forward and one file aside onto a square that holds an opponent;
/// or two steps forward from its home rank, over an empty square onto an empty
/// square. In each case `to` holds no piece of its own colour.
pub open spec fn pawn_reaches(
    occupants: Occupants,
    color: Color,
    from: Square,
    to: Square,
) -> bool {
    match (from, to) {
        (Some((fx, fy)), Some((tx, ty))) => {
            &&& on_board(fx, fy)
            &&& on_board(tx, ty)
            &&& !occupied_by(occupants, color, to)
            &&& {
                ||| tx == fx && ty == fy + forward(color) && !occupied(occupants, to)
                ||| (tx == fx - 1 || tx == fx + 1) && ty == fy + forward(color) && occupied_by(
                    occupants,
                    opponent(color),
                    to,
                )
                ||| tx == fx && ty == fy + 2 * forward(color) && fy == home_rank(color)
                    && !occupied(occupants, Some((fx, fy + forward(color)))) && !occupied(
                    occupants,
                    to,
                )
            }
        },
        _ => false,
    }
}

/// The squares one to `n - 1` steps from `from` in direction `d` are empty.
pub open spec fn clear_between(
    occupants: Occupants,
    from: Square,
    d: MoveDirection,
    n: int,
) -> bool {
    forall|m: int| 1 <= m < n ==> !occupied(occupants, #[trigger] offset(from, d, m))
}

/// A piece of `color` on `from` may slide in direction `d` to `to`: a square of
/// the board some steps ahead, with only empty squares before it, that is
/// empty itself or shows a piece of the other colour.
pub open spec fn slides(
    occupants: Occupants,
    color: Color,
    from: Square,
    d: MoveDirection,
    to: Square,
) -> bool {
    &&& from matches Some((fx, fy)) && on_board(fx, fy)
    &&& to is Some
    &&& occupant(occupants, to) != Some(color)
    &&& exists|n: int|
        1 <= n <= 7 && to == #[trigger] offset(from, d, n) && clear_between(occupants, from, d, n)
}

/// A rook slides along its rank and its file.
pub open spec fn rook_reaches(
    occupants: Occupants,
    color: Color,
    from: Square,
    to: Square,
) -> bool {
    ||| slides(occupants, color, from, MoveDirection::Up, to)
    ||| slides(occupants, color, from, MoveDirection::Right, to)
    ||| slides(occupants, color, from, MoveDirection::Down, to)
    ||| slides(occupants, color, from, MoveDirection::Left, to)
}

/// A bishop slides along its two diagonals.
pub open spec fn bishop_reaches(
    occupants: Occupants,
    color: Color,
    from: Square,
    to: Square,
) -> bool {
    ||| slides(occupants, color, from, MoveDirection::UpLeft, to)
    ||| slides(occupants, color, from, MoveDirection::UpRight, to)
    ||| slides(occupants, color, from, MoveDirection::DownRight, to)
    ||| slides(occupants, color, from, MoveDirection::DownLeft, to)
}

/// A queen slides as a rook or as a bishop.
pub open spec fn queen_reaches(
    occupants: Occupants,
    color: Color,
    from: Square,
    to: Square,
) -> bool {
    rook_reaches(occupants, color, from, to) || bishop_reaches(occupants, color, from, to)
}

/// What a slide along `ray` keeps of it: the empty squares at its head and,
/// where a piece of the other colour is seen on the square after them, that
/// square too. Nothing behind the first occupied square is kept.
pub open spec fn stops_at_first_piece(
    occupants: Occupants,
    color: Color,
    ray: Seq<Position>,
    kept: Seq<Position>,
) -> bool {
    &&& kept.is_prefix_of(ray)
    &&& forall|i: int| 0 <= i < kept.len() - 1 ==> !occupied(occupants, #[trigger] kept[i]@)
    &&& kept.len() > 0 ==> occupant(occupants, kept.last()@) != Some(color)
    &&& kept.len() < ray.len() ==> {
        ||| kept.len() > 0 && occupied(occupants, kept.last()@)
        ||| occupant(occupants, ray[kept.len() as int]@) == Some(color)
    }
}

/// The squares kept of a ray are the squares to which the piece may slide in
/// that direction.
pub proof fn lemma_kept_are_reached(
    occupants: Occupants,
    color: Color,
    from: Position,
    d: MoveDirection,
    kept: Seq<Position>,
    to: Position,
)
    requires
        stops_at_first_piece(occupants, color, from.ray(d), kept),
    ensures
        kept.contains(to) <==> slides(occupants, color, from@, d, to@),
{
    let ray = from.ray(d);
    from.lemma_ray(d);
    from.lemma_view_on_board();
    assert(forall|i: int| 0 <= i < kept.len() ==> kept[i] == ray[i]);
    if kept.contains(to) {
        // `to` is kept at some place `k`: it lies `k + 1` steps ahead, and what
        // is kept before it is empty.
        let k = choose|k: int| 0 <= k < kept.len() && kept[k] == to;
        assert forall|m: int| 1 <= m < k + 1 implies !occupied(
            occupants,
            #[trigger] offset(from@, d, m),
        ) by {
            assert(kept[m - 1] == ray[m - 1]);
        }
        if k < kept.len() - 1 {
            lemma_occupant_occupied(occupants, to@);
        }
    }
    if slides(occupants, color, from@, d, to@) {
        // `to` lies `n` steps ahead on the ray. Had the slide stopped before
        // it, a piece would stand on the way or an own piece on `to`.
        let n = choose|n: int|
            1 <= n <= 7 && to@ == #[trigger] offset(from@, d, n) && clear_between(
                occupants,
                from@,
                d,
                n,
            );
        to.lemma_view_determines(ray[n - 1]);
        if kept.len() < n {
            if !(kept.len() > 0 && occupied(occupants, kept.last()@)) {
                lemma_occupant_occupied(occupants, ray[kept.len() as int]@);
            }
            assert(false);
        }
    }
}

/// Only one sequence is kept of a ray.
pub proof fn lemma_kept_is_unique(
    occupants: Occupants,
    color: Color,
    ray: Seq<Position>,
    kept: Seq<Position>,
    other: Seq<Position>,
)
    requires
        stops_at_first_piece(occupants, color, ray, kept),
        stops_at_first_piece(occupants, color, ray, other),
    ensures
        kept == other,
{
    let short = if kept.len() <= other.len() {
        kept
    } else {
        other
    };
    let long = if kept.len() <= other.len() {
        other
    } else {
        kept
    };
    if short.len() < long.len() {
        // The shorter one stopped at a piece that the longer one went past.
        let stop = short.len() as int;
        assert(long[stop] == ray[stop]);
        if !(short.len() > 0 && occupied(occupants, short.last()@)) {
            lemma_occupant_occupied(occupants, ray[stop]@);
        }
        assert(false);
    }
}

} // verus!
