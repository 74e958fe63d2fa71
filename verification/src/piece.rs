//! The six kinds of piece and where each may move.
//!
//! Each kind is a type of its own that holds a colour and a square. The square
//! is a snapshot: nothing keeps it in step with a board. [`Piece`] is what all
//! kinds have in common, and [`AnyPiece`] is a piece of any kind, as a board
//! holds it.
//!
//! `moves` lists destinations by the basic rules of movement alone. It does
//! not ask whether the mover's king would stand in check, and it knows no
//! castling, no en passant and no promotion.

use crate::board::{lemma_occupant_occupied, occupied, occupied_by, Board, Occupants};
use crate::position::{shifted, span, MoveDirection, Position, Square, XY};
use crate::rules::{
    bishop_reaches, king_reaches, knight_reaches, lemma_kept_are_reached, opponent, pawn_reaches,
    queen_reaches, rook_reaches, slides, stops_at_first_piece,
};
use vstd::prelude::*;
use vstd::string::*;

verus! {

/// The two sides of a game.
#[derive(Clone, Copy, Debug, Hash, PartialEq, Eq, Structural)]
pub enum Color {
    Black,
    White,
}

impl Color {
    /// The other colour.
    pub fn opponent(self) -> (other: Color)
        ensures
            other == opponent(self),
    {
        match self {
            Color::Black => Color::White,
            Color::White => Color::Black,
        }
    }
}

/// What every piece can tell: its colour, its square, and where it may move.
pub trait Piece {
    /// The colour of the piece.
    spec fn spec_color(&self) -> Color;

    /// The square that the piece holds.
    spec fn spec_position(&self) -> Position;

    /// Whether the piece may move to `to` on a board with these occupants.
    spec fn reaches(&self, occupants: Occupants, to: Square) -> bool;

    /// The colour of the piece.
    fn color(&self) -> (color: Color)
        ensures
            color == self.spec_color(),
    ;

    /// The square that the piece holds.
    fn position(&self) -> (position: Position)
        ensures
            position == self.spec_position(),
    ;

    /// The symbol that stands for the piece in print.
    spec fn glyph(&self) -> Seq<char>;

    /// The symbol that stands for the piece in print.
    fn to_string(&self) -> (text: String)
        ensures
            text@ == self.glyph(),
    ;

    /// The squares the piece may move to, each once, in no stated order.
    fn moves(&self, board: &Board) -> (destinations: Vec<Position>)
        ensures
            destinations@.no_duplicates(),
            forall|to: Position|
                destinations@.contains(to) <==> self.reaches(board.occupants(), to@),
    ;
}

/// Lists `target` among `destinations` unless it is there already.
fn insert(destinations: &mut Vec<Position>, target: Position)
    requires
        old(destinations)@.no_duplicates(),
    ensures
        final(destinations)@.no_duplicates(),
        final(destinations)@.len() <= old(destinations)@.len() + 1,
        forall|to: Position|
            final(destinations)@.contains(to) <==> old(destinations)@.contains(to) || to == target,
{
    let mut i: usize = 0;
    while i < destinations.len()
        invariant
            i <= destinations@.len(),
            destinations@ == old(destinations)@,
            destinations@.no_duplicates(),
            forall|k: int| 0 <= k < i ==> destinations@[k] != target,
        decreases destinations@.len() - i,
    {
        if destinations[i] == target {
            return ;
        }
        i = i + 1;
    }
    destinations.push(target);
    proof {
        let before = old(destinations)@;
        let after = destinations@;
        assert forall|to: Position| after.contains(to) <==> before.contains(to) || to
            == target by {
            if before.contains(to) {
                let k = choose|k: int| 0 <= k < before.len() && before[k] == to;
                assert(after[k] == to);
            }
            if to == target {
                assert(after[before.len() as int] == to);
            }
        }
    }
}

/// Lists each of `squares` among `destinations` unless it is there already.
fn insert_all(destinations: &mut Vec<Position>, squares: &Vec<Position>)
    requires
        old(destinations)@.no_duplicates(),
    ensures
        final(destinations)@.no_duplicates(),
        final(destinations)@.len() <= old(destinations)@.len() + squares@.len(),
        forall|to: Position|
            final(destinations)@.contains(to) <==> old(destinations)@.contains(to)
                || squares@.contains(to),
{
    let mut i: usize = 0;
    while i < squares.len()
        invariant
            i <= squares@.len(),
            destinations@.no_duplicates(),
            destinations@.len() <= old(destinations)@.len() + i,
            forall|to: Position|
                destinations@.contains(to) <==> old(destinations)@.contains(to)
                    || squares@.take(i as int).contains(to),
        decreases squares@.len() - i,
    {
        insert(destinations, squares[i]);
        proof {
            let head = squares@.take(i as int);
            let next = squares@.take(i + 1);
            assert forall|to: Position|
                destinations@.contains(to) <==> old(destinations)@.contains(to) || next.contains(
                    to,
                ) by {
                if head.contains(to) {
                    let k = choose|k: int| 0 <= k < head.len() && head[k] == to;
                    assert(next[k] == to);
                }
                if to == squares@[i as int] {
                    assert(next[i as int] == to);
                }
            }
        }
        i = i + 1;
    }
    proof {
        assert(squares@.take(i as int) == squares@);
    }
}

/// Lists `target` among `destinations` if it is a square of the board that
/// holds no piece of `color`.
fn insert_unless_own(
    destinations: &mut Vec<Position>,
    board: &Board,
    color: Color,
    target: Position,
)
    requires
        old(destinations)@.no_duplicates(),
    ensures
        final(destinations)@.no_duplicates(),
        final(destinations)@.len() <= old(destinations)@.len() + 1,
        forall|to: Position|
            final(destinations)@.contains(to) <==> old(destinations)@.contains(to) || (to
                == target && target@ is Some && !occupied_by(board.occupants(), color, target@)),
{
    if target.is_on_board() && !board.has_piece_of(color, target) {
        insert(destinations, target);
    }
}

/// A pawn.
#[derive(Clone, Copy, Debug, PartialEq, Eq, Structural)]
pub struct Pawn {
    color: Color,
    position: Position,
}

impl View for Pawn {
    type V = (Color, Position);

    closed spec fn view(&self) -> (Color, Position) {
        (self.color, self.position)
    }
}

impl Pawn {
    /// The symbol that stands for the piece in print.
    pub open spec fn symbol(self) -> Seq<char> {
        match self@.0 {
            Color::Black => seq!['\u{265F}'],
            Color::White => seq!['\u{2659}'],
        }
    }

    /// The pawn of `color` on `position`.
    pub closed spec fn spec_new(color: Color, position: Position) -> Pawn {
        Pawn { color, position }
    }

    /// Colour and square of what `new` makes.
    pub proof fn lemma_new(color: Color, position: Position)
        ensures
            Pawn::new(color, position)@ == (color, position),
    {
    }

    /// A pawn of `color` on `position`.
    #[verifier::when_used_as_spec(spec_new)]
    pub fn new(color: Color, position: Position) -> (pawn: Pawn)
        ensures
            pawn == Pawn::spec_new(color, position),
            pawn@ == (color, position),
    {
        Pawn { color, position }
    }
}

impl Piece for Pawn {
    open spec fn spec_color(&self) -> Color {
        self@.0
    }

    open spec fn spec_position(&self) -> Position {
        self@.1
    }

    open spec fn reaches(&self, occupants: Occupants, to: Square) -> bool {
        pawn_reaches(occupants, self@.0, self@.1@, to)
    }

    open spec fn glyph(&self) -> Seq<char> {
        self.symbol()
    }

    fn color(&self) -> (color: Color) {
        self.color
    }

    fn position(&self) -> (position: Position) {
        self.position
    }

    fn to_string(&self) -> (text: String) {
        let out = match self.color {
            Color::Black => "\u{265F}",
            Color::White => "\u{2659}",
        };
        proof {
            reveal_strlit("\u{265F}");
            reveal_strlit("\u{2659}");
        }
        String::from_str(out)
    }

    fn moves(&self, board: &Board) -> (destinations: Vec<Position>)
        ensures
            destinations@.len() <= 4,
    {
        let from = self.position;
        let in_home_row = match (self.color, from.to_xy()) {
            (Color::White, XY::OnBoard(_, 1)) => true,
            (Color::Black, XY::OnBoard(_, 6)) => true,
            _ => false,
        };
        let (one_step, capture_left, capture_right) = match self.color {
            Color::Black => (from.down(), from.down_left(), from.down_right()),
            Color::White => (from.up(), from.up_left(), from.up_right()),
        };
        let two_steps = match self.color {
            Color::Black => one_step.down(),
            Color::White => one_step.up(),
        };
        let mut destinations: Vec<Position> = Vec::new();

        if !board.has_piece(one_step) {
            insert_unless_own(&mut destinations, board, self.color, one_step);
        }
        if board.has_piece_of(self.color.opponent(), capture_left) {
            insert_unless_own(&mut destinations, board, self.color, capture_left);
        }
        if board.has_piece_of(self.color.opponent(), capture_right) {
            insert_unless_own(&mut destinations, board, self.color, capture_right);
        }
        if in_home_row && !board.has_piece(two_steps) && !board.has_piece(one_step) {
            insert_unless_own(&mut destinations, board, self.color, two_steps);
        }
        proof {
            from.lemma_view_on_board();
            assert forall|to: Position|
                destinations@.contains(to) <==> self.reaches(board.occupants(), to@) by {
                to.lemma_view_on_board();
                to.lemma_view_determines(one_step);
                to.lemma_view_determines(capture_left);
                to.lemma_view_determines(capture_right);
                to.lemma_view_determines(two_steps);
            }
        }
        destinations
    }
}

/// A knight.
#[derive(Clone, Copy, Debug, PartialEq, Eq, Structural)]
pub struct Knight {
    color: Color,
    position: Position,
}

impl View for Knight {
    type V = (Color, Position);

    closed spec fn view(&self) -> (Color, Position) {
        (self.color, self.position)
    }
}

impl Knight {
    /// The symbol that stands for the piece in print.
    pub open spec fn symbol(self) -> Seq<char> {
        match self@.0 {
            Color::Black => seq!['\u{265E}'],
            Color::White => seq!['\u{2658}'],
        }
    }

    /// The knight of `color` on `position`.
    pub closed spec fn spec_new(color: Color, position: Position) -> Knight {
        Knight { color, position }
    }

    /// Colour and square of what `new` makes.
    pub proof fn lemma_new(color: Color, position: Position)
        ensures
            Knight::new(color, position)@ == (color, position),
    {
    }

    /// A knight of `color` on `position`.
    #[verifier::when_used_as_spec(spec_new)]
    pub fn new(color: Color, position: Position) -> (knight: Knight)
        ensures
            knight == Knight::spec_new(color, position),
            knight@ == (color, position),
    {
        Knight { color, position }
    }
}

/// Two steps one way, then one step aside, as a knight jumps.
fn jump(from: Position, along: MoveDirection, aside: MoveDirection) -> (to: Position)
    requires
        along.dx() == 0 || along.dy() == 0,
        aside.dx() == 0 || aside.dy() == 0,
        along.dx() == 0 <==> aside.dx() != 0,
    ensures
        to@ == shifted(from@, 2 * along.dx() + aside.dx(), 2 * along.dy() + aside.dy()),
{
    let walk = Position::compose([along, along, aside]);
    let to = walk(from);
    proof {
        reveal_with_fuel(Position::walk, 4);
        let first = from.spec_step(along);
        let second = first.spec_step(along);
        from.lemma_step(along);
        first.lemma_step(along);
        second.lemma_step(aside);
        from.lemma_view_on_board();
    }
    to
}

impl Piece for Knight {
    open spec fn spec_color(&self) -> Color {
        self@.0
    }

    open spec fn spec_position(&self) -> Position {
        self@.1
    }

    open spec fn reaches(&self, occupants: Occupants, to: Square) -> bool {
        knight_reaches(occupants, self@.0, self@.1@, to)
    }

    open spec fn glyph(&self) -> Seq<char> {
        self.symbol()
    }

    fn color(&self) -> (color: Color) {
        self.color
    }

    fn position(&self) -> (position: Position) {
        self.position
    }

    fn to_string(&self) -> (text: String) {
        let out = match self.color {
            Color::Black => "\u{265E}",
            Color::White => "\u{2658}",
        };
        proof {
            reveal_strlit("\u{265E}");
            reveal_strlit("\u{2658}");
        }
        String::from_str(out)
    }

    fn moves(&self, board: &Board) -> (destinations: Vec<Position>)
        ensures
            destinations@.len() <= 8,
    {
        let from = self.position;
        let up_right = jump(from, MoveDirection::Up, MoveDirection::Right);
        let up_left = jump(from, MoveDirection::Up, MoveDirection::Left);
        let right_up = jump(from, MoveDirection::Right, MoveDirection::Up);
        let right_down = jump(from, MoveDirection::Right, MoveDirection::Down);
        let down_right = jump(from, MoveDirection::Down, MoveDirection::Right);
        let down_left = jump(from, MoveDirection::Down, MoveDirection::Left);
        let left_down = jump(from, MoveDirection::Left, MoveDirection::Down);
        let left_up = jump(from, MoveDirection::Left, MoveDirection::Up);
        let mut destinations: Vec<Position> = Vec::new();
        insert_unless_own(&mut destinations, board, self.color, up_right);
        insert_unless_own(&mut destinations, board, self.color, up_left);
        insert_unless_own(&mut destinations, board, self.color, right_up);
        insert_unless_own(&mut destinations, board, self.color, right_down);
        insert_unless_own(&mut destinations, board, self.color, down_right);
        insert_unless_own(&mut destinations, board, self.color, down_left);
        insert_unless_own(&mut destinations, board, self.color, left_down);
        insert_unless_own(&mut destinations, board, self.color, left_up);
        proof {
            from.lemma_view_on_board();
            assert forall|to: Position|
                destinations@.contains(to) <==> self.reaches(board.occupants(), to@) by {
                to.lemma_view_on_board();
                to.lemma_view_determines(up_right);
                to.lemma_view_determines(up_left);
                to.lemma_view_determines(right_up);
                to.lemma_view_determines(right_down);
                to.lemma_view_determines(down_right);
                to.lemma_view_determines(down_left);
                to.lemma_view_determines(left_down);
                to.lemma_view_determines(left_up);
            }
        }
        destinations
    }
}

/// The squares to which a piece of `color` on `from` may slide in `direction`,
/// nearest first: the empty squares ahead, up to the first piece, and the
/// square of that piece if it is of the other colour.
pub fn slide(
    board: &Board,
    color: Color,
    from: Position,
    direction: MoveDirection,
) -> (squares: Vec<Position>)
    ensures
        stops_at_first_piece(board.occupants(), color, from.ray(direction), squares@),
        forall|to: Position|
            squares@.contains(to) <==> slides(board.occupants(), color, from@, direction, to@),
{
    let ray = from.stream(direction);
    let mut squares: Vec<Position> = Vec::new();
    let mut i: usize = 0;
    while i < ray.len()
        invariant
            i <= ray@.len(),
            ray@ == from.ray(direction),
            squares@ == ray@.take(i as int),
            forall|k: int| 0 <= k < i ==> !occupied(board.occupants(), #[trigger] ray@[k]@),
        decreases ray@.len() - i,
    {
        let position = ray[i];
        proof {
            lemma_occupant_occupied(board.occupants(), position@);
        }
        match board.piece_at(position) {
            Some(piece) => {
                if piece.color() != color {
                    squares.push(position);
                }
                proof {
                    if i > 0 {
                        lemma_occupant_occupied(board.occupants(), ray@[i - 1]@);
                    }
                    assert(stops_at_first_piece(
                        board.occupants(),
                        color,
                        from.ray(direction),
                        squares@,
                    ));
                    assert forall|to: Position|
                        squares@.contains(to) <==> slides(
                            board.occupants(),
                            color,
                            from@,
                            direction,
                            to@,
                        ) by {
                        lemma_kept_are_reached(
                            board.occupants(),
                            color,
                            from,
                            direction,
                            squares@,
                            to,
                        );
                    }
                }
                return squares;
            },
            None => {
                squares.push(position);
            },
        }
        i = i + 1;
    }
    proof {
        if squares@.len() > 0 {
            lemma_occupant_occupied(board.occupants(), squares@.last()@);
        }
        assert forall|to: Position|
            squares@.contains(to) <==> slides(board.occupants(), color, from@, direction, to@) by {
            lemma_kept_are_reached(board.occupants(), color, from, direction, squares@, to);
        }
    }
    squares
}

/// How many squares of the board lie ahead of `from`, taken over `directions`.
spec fn squares_ahead(from: Square, directions: Seq<MoveDirection>) -> nat
    decreases directions.len(),
{
    if directions.len() == 0 {
        0
    } else {
        squares_ahead(from, directions.drop_last()) + span(from, directions.last())
    }
}

/// Whether a piece of `color` on `from` may slide to `to` in one of
/// `directions`.
spec fn slides_in_one_of(
    occupants: Occupants,
    color: Color,
    from: Square,
    directions: Seq<MoveDirection>,
    to: Square,
) -> bool {
    exists|k: int|
        0 <= k < directions.len() && #[trigger] slides(occupants, color, from, directions[k], to)
}

/// One more direction adds the squares to which the piece may slide in it.
proof fn lemma_one_more_direction(
    occupants: Occupants,
    color: Color,
    from: Square,
    directions: Seq<MoveDirection>,
    next: MoveDirection,
    to: Square,
)
    ensures
        slides_in_one_of(occupants, color, from, directions.push(next), to) <==> slides_in_one_of(
            occupants,
            color,
            from,
            directions,
            to,
        ) || slides(occupants, color, from, next, to),
{
    let more = directions.push(next);
    if slides_in_one_of(occupants, color, from, directions, to) {
        let k = choose|k: int|
            0 <= k < directions.len() && #[trigger] slides(
                occupants,
                color,
                from,
                directions[k],
                to,
            );
        assert(slides(occupants, color, from, more[k], to));
    }
    if slides(occupants, color, from, next, to) {
        assert(slides(occupants, color, from, more[directions.len() as int], to));
    }
    if slides_in_one_of(occupants, color, from, more, to) {
        let k = choose|k: int|
            0 <= k < more.len() && #[trigger] slides(occupants, color, from, more[k], to);
        if k < directions.len() {
            assert(slides(occupants, color, from, directions[k], to));
        }
    }
}

/// The squares to which a piece of `color` on `from` may slide in any of
/// `directions`, each once.
fn slide_each(
    board: &Board,
    color: Color,
    from: Position,
    directions: &[MoveDirection],
) -> (destinations: Vec<Position>)
    ensures
        destinations@.no_duplicates(),
        destinations@.len() <= squares_ahead(from@, directions@),
        forall|to: Position|
            destinations@.contains(to) <==> slides_in_one_of(
                board.occupants(),
                color,
                from@,
                directions@,
                to@,
            ),
{
    let mut destinations: Vec<Position> = Vec::new();
    let mut d: usize = 0;
    while d < directions.len()
        invariant
            d <= directions@.len(),
            destinations@.no_duplicates(),
            destinations@.len() <= squares_ahead(from@, directions@.take(d as int)),
            forall|to: Position|
                destinations@.contains(to) <==> slides_in_one_of(
                    board.occupants(),
                    color,
                    from@,
                    directions@.take(d as int),
                    to@,
                ),
        decreases directions@.len() - d,
    {
        let squares = slide(board, color, from, directions[d]);
        let ghost before = destinations@;
        insert_all(&mut destinations, &squares);
        proof {
            let done = directions@.take(d as int);
            let next = directions@[d as int];
            from.lemma_ray(next);
            assert(directions@.take(d + 1) =~= done.push(next));
            assert(done.push(next).drop_last() =~= done);
            assert forall|to: Position|
                destinations@.contains(to) <==> slides_in_one_of(
                    board.occupants(),
                    color,
                    from@,
                    done.push(next),
                    to@,
                ) by {
                assert(before.contains(to) <==> slides_in_one_of(
                    board.occupants(),
                    color,
                    from@,
                    done,
                    to@,
                ));
                assert(squares@.contains(to) <==> slides(
                    board.occupants(),
                    color,
                    from@,
                    next,
                    to@,
                ));
                lemma_one_more_direction(board.occupants(), color, from@, done, next, to@);
            }
        }
        d = d + 1;
    }
    proof {
        assert(directions@.take(d as int) =~= directions@);
    }
    destinations
}

/// A bishop.
#[derive(Clone, Copy, Debug, PartialEq, Eq, Structural)]
pub struct Bishop {
    color: Color,
    position: Position,
}

impl View for Bishop {
    type V = (Color, Position);

    closed spec fn view(&self) -> (Color, Position) {
        (self.color, self.position)
    }
}

impl Bishop {
    /// The symbol that stands for the piece in print.
    pub open spec fn symbol(self) -> Seq<char> {
        match self@.0 {
            Color::Black => seq!['\u{265D}'],
            Color::White => seq!['\u{2657}'],
        }
    }

    /// The bishop of `color` on `position`.
    pub closed spec fn spec_new(color: Color, position: Position) -> Bishop {
        Bishop { color, position }
    }

    /// Colour and square of what `new` makes.
    pub proof fn lemma_new(color: Color, position: Position)
        ensures
            Bishop::new(color, position)@ == (color, position),
    {
    }

    /// A bishop of `color` on `position`.
    #[verifier::when_used_as_spec(spec_new)]
    pub fn new(color: Color, position: Position) -> (bishop: Bishop)
        ensures
            bishop == Bishop::spec_new(color, position),
            bishop@ == (color, position),
    {
        Bishop { color, position }
    }
}

impl Piece for Bishop {
    open spec fn spec_color(&self) -> Color {
        self@.0
    }

    open spec fn spec_position(&self) -> Position {
        self@.1
    }

    open spec fn reaches(&self, occupants: Occupants, to: Square) -> bool {
        bishop_reaches(occupants, self@.0, self@.1@, to)
    }

    open spec fn glyph(&self) -> Seq<char> {
        self.symbol()
    }

    fn color(&self) -> (color: Color) {
        self.color
    }

    fn position(&self) -> (position: Position) {
        self.position
    }

    fn to_string(&self) -> (text: String) {
        let out = match self.color {
            Color::Black => "\u{265D}",
            Color::White => "\u{2657}",
        };
        proof {
            reveal_strlit("\u{265D}");
            reveal_strlit("\u{2657}");
        }
        String::from_str(out)
    }

    fn moves(&self, board: &Board) -> (destinations: Vec<Position>)
        ensures
            destinations@.len() <= 13,
    {
        let directions = [
            MoveDirection::UpLeft,
            MoveDirection::UpRight,
            MoveDirection::DownRight,
            MoveDirection::DownLeft,
        ];
        let destinations = slide_each(board, self.color, self.position, directions.as_slice());
        proof {
            reveal_with_fuel(squares_ahead, 5);
            self.position.lemma_view_on_board();
            assert forall|to: Position|
                destinations@.contains(to) <==> self.reaches(board.occupants(), to@) by {
                let occupants = board.occupants();
                let from = self.position@;
                assert(slides(occupants, self.color, from, directions@[0], to@) == slides(
                    occupants,
                    self.color,
                    from,
                    MoveDirection::UpLeft,
                    to@,
                ));
                assert(slides(occupants, self.color, from, directions@[1], to@) == slides(
                    occupants,
                    self.color,
                    from,
                    MoveDirection::UpRight,
                    to@,
                ));
                assert(slides(occupants, self.color, from, directions@[2], to@) == slides(
                    occupants,
                    self.color,
                    from,
                    MoveDirection::DownRight,
                    to@,
                ));
                assert(slides(occupants, self.color, from, directions@[3], to@) == slides(
                    occupants,
                    self.color,
                    from,
                    MoveDirection::DownLeft,
                    to@,
                ));
            }
        }
        destinations
    }
}

/// A rook.
#[derive(Clone, Copy, Debug, PartialEq, Eq, Structural)]
pub struct Rook {
    color: Color,
    position: Position,
}

impl View for Rook {
    type V = (Color, Position);

    closed spec fn view(&self) -> (Color, Position) {
        (self.color, self.position)
    }
}

impl Rook {
    /// The symbol that stands for the piece in print.
    pub open spec fn symbol(self) -> Seq<char> {
        match self@.0 {
            Color::Black => seq!['\u{265C}'],
            Color::White => seq!['\u{2656}'],
        }
    }

    /// The rook of `color` on `position`.
    pub closed spec fn spec_new(color: Color, position: Position) -> Rook {
        Rook { color, position }
    }

    /// Colour and square of what `new` makes.
    pub proof fn lemma_new(color: Color, position: Position)
        ensures
            Rook::new(color, position)@ == (color, position),
    {
    }

    /// A rook of `color` on `position`.
    #[verifier::when_used_as_spec(spec_new)]
    pub fn new(color: Color, position: Position) -> (rook: Rook)
        ensures
            rook == Rook::spec_new(color, position),
            rook@ == (color, position),
    {
        Rook { color, position }
    }
}

impl Piece for Rook {
    open spec fn spec_color(&self) -> Color {
        self@.0
    }

    open spec fn spec_position(&self) -> Position {
        self@.1
    }

    open spec fn reaches(&self, occupants: Occupants, to: Square) -> bool {
        rook_reaches(occupants, self@.0, self@.1@, to)
    }

    open spec fn glyph(&self) -> Seq<char> {
        self.symbol()
    }

    fn color(&self) -> (color: Color) {
        self.color
    }

    fn position(&self) -> (position: Position) {
        self.position
    }

    fn to_string(&self) -> (text: String) {
        let out = match self.color {
            Color::Black => "\u{265C}",
            Color::White => "\u{2656}",
        };
        proof {
            reveal_strlit("\u{265C}");
            reveal_strlit("\u{2656}");
        }
        String::from_str(out)
    }

    fn moves(&self, board: &Board) -> (destinations: Vec<Position>)
        ensures
            destinations@.len() <= 14,
    {
        let directions = [
            MoveDirection::Up,
            MoveDirection::Right,
            MoveDirection::Down,
            MoveDirection::Left,
        ];
        let destinations = slide_each(board, self.color, self.position, directions.as_slice());
        proof {
            reveal_with_fuel(squares_ahead, 5);
            self.position.lemma_view_on_board();
            assert forall|to: Position|
                destinations@.contains(to) <==> self.reaches(board.occupants(), to@) by {
                let occupants = board.occupants();
                let from = self.position@;
                assert(slides(occupants, self.color, from, directions@[0], to@) == slides(
                    occupants,
                    self.color,
                    from,
                    MoveDirection::Up,
                    to@,
                ));
                assert(slides(occupants, self.color, from, directions@[1], to@) == slides(
                    occupants,
                    self.color,
                    from,
                    MoveDirection::Right,
                    to@,
                ));
                assert(slides(occupants, self.color, from, directions@[2], to@) == slides(
                    occupants,
                    self.color,
                    from,
                    MoveDirection::Down,
                    to@,
                ));
                assert(slides(occupants, self.color, from, directions@[3], to@) == slides(
                    occupants,
                    self.color,
                    from,
                    MoveDirection::Left,
                    to@,
                ));
            }
        }
        destinations
    }
}

/// A queen.
#[derive(Clone, Copy, Debug, PartialEq, Eq, Structural)]
pub struct Queen {
    color: Color,
    position: Position,
}

impl View for Queen {
    type V = (Color, Position);

    closed spec fn view(&self) -> (Color, Position) {
        (self.color, self.position)
    }
}

impl Queen {
    /// The symbol that stands for the piece in print.
    pub open spec fn symbol(self) -> Seq<char> {
        match self@.0 {
            Color::Black => seq!['\u{265B}'],
            Color::White => seq!['\u{2655}'],
        }
    }

    /// The queen of `color` on `position`.
    pub closed spec fn spec_new(color: Color, position: Position) -> Queen {
        Queen { color, position }
    }

    /// Colour and square of what `new` makes.
    pub proof fn lemma_new(color: Color, position: Position)
        ensures
            Queen::new(color, position)@ == (color, position),
    {
    }

    /// A queen of `color` on `position`.
    #[verifier::when_used_as_spec(spec_new)]
    pub fn new(color: Color, position: Position) -> (queen: Queen)
        ensures
            queen == Queen::spec_new(color, position),
            queen@ == (color, position),
    {
        Queen { color, position }
    }
}

impl Piece for Queen {
    open spec fn spec_color(&self) -> Color {
        self@.0
    }

    open spec fn spec_position(&self) -> Position {
        self@.1
    }

    open spec fn reaches(&self, occupants: Occupants, to: Square) -> bool {
        queen_reaches(occupants, self@.0, self@.1@, to)
    }

    open spec fn glyph(&self) -> Seq<char> {
        self.symbol()
    }

    fn color(&self) -> (color: Color) {
        self.color
    }

    fn position(&self) -> (position: Position) {
        self.position
    }

    fn to_string(&self) -> (text: String) {
        let out = match self.color {
            Color::Black => "\u{265B}",
            Color::White => "\u{2655}",
        };
        proof {
            reveal_strlit("\u{265B}");
            reveal_strlit("\u{2655}");
        }
        String::from_str(out)
    }

    fn moves(&self, board: &Board) -> (destinations: Vec<Position>)
        ensures
            destinations@.len() <= 27,
    {
        let directions = [
            MoveDirection::Up,
            MoveDirection::Right,
            MoveDirection::Down,
            MoveDirection::Left,
            MoveDirection::UpLeft,
            MoveDirection::UpRight,
            MoveDirection::DownRight,
            MoveDirection::DownLeft,
        ];
        let destinations = slide_each(board, self.color, self.position, directions.as_slice());
        proof {
            reveal_with_fuel(squares_ahead, 9);
            self.position.lemma_view_on_board();
            assert forall|to: Position|
                destinations@.contains(to) <==> self.reaches(board.occupants(), to@) by {
                let occupants = board.occupants();
                let from = self.position@;
                assert(slides(occupants, self.color, from, directions@[0], to@) == slides(
                    occupants,
                    self.color,
                    from,
                    MoveDirection::Up,
                    to@,
                ));
                assert(slides(occupants, self.color, from, directions@[1], to@) == slides(
                    occupants,
                    self.color,
                    from,
                    MoveDirection::Right,
                    to@,
                ));
                assert(slides(occupants, self.color, from, directions@[2], to@) == slides(
                    occupants,
                    self.color,
                    from,
                    MoveDirection::Down,
                    to@,
                ));
                assert(slides(occupants, self.color, from, directions@[3], to@) == slides(
                    occupants,
                    self.color,
                    from,
                    MoveDirection::Left,
                    to@,
                ));
                assert(slides(occupants, self.color, from, directions@[4], to@) == slides(
                    occupants,
                    self.color,
                    from,
                    MoveDirection::UpLeft,
                    to@,
                ));
                assert(slides(occupants, self.color, from, directions@[5], to@) == slides(
                    occupants,
                    self.color,
                    from,
                    MoveDirection::UpRight,
                    to@,
                ));
                assert(slides(occupants, self.color, from, directions@[6], to@) == slides(
                    occupants,
                    self.color,
                    from,
                    MoveDirection::DownRight,
                    to@,
                ));
                assert(slides(occupants, self.color, from, directions@[7], to@) == slides(
                    occupants,
                    self.color,
                    from,
                    MoveDirection::DownLeft,
                    to@,
                ));
            }
        }
        destinations
    }
}

/// A king.
#[derive(Clone, Copy, Debug, PartialEq, Eq, Structural)]
pub struct King {
    color: Color,
    position: Position,
}

impl View for King {
    type V = (Color, Position);

    closed spec fn view(&self) -> (Color, Position) {
        (self.color, self.position)
    }
}

impl King {
    /// The symbol that stands for the piece in print.
    pub open spec fn symbol(self) -> Seq<char> {
        match self@.0 {
            Color::Black => seq!['\u{265A}'],
            Color::White => seq!['\u{2654}'],
        }
    }

    /// The king of `color` on `position`.
    pub closed spec fn spec_new(color: Color, position: Position) -> King {
        King { color, position }
    }

    /// Colour and square of what `new` makes.
    pub proof fn lemma_new(color: Color, position: Position)
        ensures
            King::new(color, position)@ == (color, position),
    {
    }

    /// A king of `color` on `position`.
    #[verifier::when_used_as_spec(spec_new)]
    pub fn new(color: Color, position: Position) -> (king: King)
        ensures
            king == King::spec_new(color, position),
            king@ == (color, position),
    {
        King { color, position }
    }
}

impl Piece for King {
    open spec fn spec_color(&self) -> Color {
        self@.0
    }

    open spec fn spec_position(&self) -> Position {
        self@.1
    }

    open spec fn reaches(&self, occupants: Occupants, to: Square) -> bool {
        king_reaches(occupants, self@.0, self@.1@, to)
    }

    open spec fn glyph(&self) -> Seq<char> {
        self.symbol()
    }

    fn color(&self) -> (color: Color) {
        self.color
    }

    fn position(&self) -> (position: Position) {
        self.position
    }

    fn to_string(&self) -> (text: String) {
        let out = match self.color {
            Color::Black => "\u{265A}",
            Color::White => "\u{2654}",
        };
        proof {
            reveal_strlit("\u{265A}");
            reveal_strlit("\u{2654}");
        }
        String::from_str(out)
    }

    fn moves(&self, board: &Board) -> (destinations: Vec<Position>)
        ensures
            destinations@.len() <= 8,
    {
        let from = self.position;
        let mut destinations: Vec<Position> = Vec::new();
        insert_unless_own(&mut destinations, board, self.color, from.up());
        insert_unless_own(&mut destinations, board, self.color, from.up_right());
        insert_unless_own(&mut destinations, board, self.color, from.right());
        insert_unless_own(&mut destinations, board, self.color, from.down_right());
        insert_unless_own(&mut destinations, board, self.color, from.down());
        insert_unless_own(&mut destinations, board, self.color, from.down_left());
        insert_unless_own(&mut destinations, board, self.color, from.left());
        insert_unless_own(&mut destinations, board, self.color, from.up_left());
        proof {
            from.lemma_view_on_board();
            assert forall|to: Position|
                destinations@.contains(to) <==> self.reaches(board.occupants(), to@) by {
                to.lemma_view_on_board();
                to.lemma_view_determines(from.up());
                to.lemma_view_determines(from.up_right());
                to.lemma_view_determines(from.right());
                to.lemma_view_determines(from.down_right());
                to.lemma_view_determines(from.down());
                to.lemma_view_determines(from.down_left());
                to.lemma_view_determines(from.left());
                to.lemma_view_determines(from.up_left());
            }
        }
        destinations
    }
}

/// A piece of any of the six kinds.
#[derive(Clone, Copy, Debug, PartialEq, Eq, Structural)]
pub enum AnyPiece {
    Pawn(Pawn),
    Knight(Knight),
    Bishop(Bishop),
    Rook(Rook),
    Queen(Queen),
    King(King),
}

impl AnyPiece {
    /// The symbol that stands for the piece in print.
    pub open spec fn symbol(self) -> Seq<char> {
        match self {
            AnyPiece::Pawn(pawn) => pawn.symbol(),
            AnyPiece::Knight(knight) => knight.symbol(),
            AnyPiece::Bishop(bishop) => bishop.symbol(),
            AnyPiece::Rook(rook) => rook.symbol(),
            AnyPiece::Queen(queen) => queen.symbol(),
            AnyPiece::King(king) => king.symbol(),
        }
    }

    /// Colour and square of the piece.
    pub open spec fn placement(self) -> (Color, Position) {
        match self {
            AnyPiece::Pawn(pawn) => pawn@,
            AnyPiece::Knight(knight) => knight@,
            AnyPiece::Bishop(bishop) => bishop@,
            AnyPiece::Rook(rook) => rook@,
            AnyPiece::Queen(queen) => queen@,
            AnyPiece::King(king) => king@,
        }
    }
}

impl Piece for AnyPiece {
    open spec fn spec_color(&self) -> Color {
        self.placement().0
    }

    open spec fn spec_position(&self) -> Position {
        self.placement().1
    }

    open spec fn reaches(&self, occupants: Occupants, to: Square) -> bool {
        match *self {
            AnyPiece::Pawn(pawn) => pawn.reaches(occupants, to),
            AnyPiece::Knight(knight) => knight.reaches(occupants, to),
            AnyPiece::Bishop(bishop) => bishop.reaches(occupants, to),
            AnyPiece::Rook(rook) => rook.reaches(occupants, to),
            AnyPiece::Queen(queen) => queen.reaches(occupants, to),
            AnyPiece::King(king) => king.reaches(occupants, to),
        }
    }

    open spec fn glyph(&self) -> Seq<char> {
        self.symbol()
    }

    fn color(&self) -> (color: Color) {
        match self {
            AnyPiece::Pawn(pawn) => pawn.color(),
            AnyPiece::Knight(knight) => knight.color(),
            AnyPiece::Bishop(bishop) => bishop.color(),
            AnyPiece::Rook(rook) => rook.color(),
            AnyPiece::Queen(queen) => queen.color(),
            AnyPiece::King(king) => king.color(),
        }
    }

    fn position(&self) -> (position: Position) {
        match self {
            AnyPiece::Pawn(pawn) => pawn.position(),
            AnyPiece::Knight(knight) => knight.position(),
            AnyPiece::Bishop(bishop) => bishop.position(),
            AnyPiece::Rook(rook) => rook.position(),
            AnyPiece::Queen(queen) => queen.position(),
            AnyPiece::King(king) => king.position(),
        }
    }

    fn to_string(&self) -> (text: String) {
        match self {
            AnyPiece::Pawn(pawn) => pawn.to_string(),
            AnyPiece::Knight(knight) => knight.to_string(),
            AnyPiece::Bishop(bishop) => bishop.to_string(),
            AnyPiece::Rook(rook) => rook.to_string(),
            AnyPiece::Queen(queen) => queen.to_string(),
            AnyPiece::King(king) => king.to_string(),
        }
    }

    fn moves(&self, board: &Board) -> (destinations: Vec<Position>)
        ensures
            destinations@.len() <= 27,
    {
        match self {
            AnyPiece::Pawn(pawn) => pawn.moves(board),
            AnyPiece::Knight(knight) => knight.moves(board),
            AnyPiece::Bishop(bishop) => bishop.moves(board),
            AnyPiece::Rook(rook) => rook.moves(board),
            AnyPiece::Queen(queen) => queen.moves(board),
            AnyPiece::King(king) => king.moves(board),
        }
    }
}

} // verus!
