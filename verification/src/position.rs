//! Squares of the board, the eight unit steps between them, and rays.
//!
//! A square is modelled as a [`Square`]: `Some((x, y))` is the square on file
//! `x` and rank `y`, `None` is "not on the board". A [`Position`] packs that
//! model into one byte; its view gives the model back.

use vstd::prelude::*;

verus! {

/// A square as a caller reads it: file and rank, or the tag for "not on the board".
#[derive(Clone, Copy, Debug, Hash, PartialEq, Eq, Structural)]
pub enum XY {
    OffBoard,
    OnBoard(u8, u8),
}

/// The eight compass directions of a single step.
#[derive(Clone, Copy, Debug, PartialEq, Eq, Structural)]
pub enum MoveDirection {
    Up,
    Down,
    Left,
    Right,
    UpRight,
    UpLeft,
    DownRight,
    DownLeft,
}

impl MoveDirection {
    /// Change of file made by one step in this direction.
    pub open spec fn dx(self) -> int {
        match self {
            MoveDirection::Up | MoveDirection::Down => 0,
            MoveDirection::Right | MoveDirection::UpRight | MoveDirection::DownRight => 1,
            MoveDirection::Left | MoveDirection::UpLeft | MoveDirection::DownLeft => -1,
        }
    }

    /// Change of rank made by one step in this direction.
    pub open spec fn dy(self) -> int {
        match self {
            MoveDirection::Left | MoveDirection::Right => 0,
            MoveDirection::Up | MoveDirection::UpRight | MoveDirection::UpLeft => 1,
            MoveDirection::Down | MoveDirection::DownRight | MoveDirection::DownLeft => -1,
        }
    }
}

/// A square in the model: `Some((x, y))` is the square on file `x` and rank
/// `y`; `None` is no square of the board.
pub type Square = Option<(int, int)>;

/// Whether file `x` and rank `y` name a square of the board.
pub open spec fn on_board(x: int, y: int) -> bool {
    0 <= x <= 7 && 0 <= y <= 7
}

/// The square `dx` files and `dy` ranks away from `sq`; `None` where `sq` is
/// `None` or the target lies outside the board.
pub open spec fn shifted(sq: Square, dx: int, dy: int) -> Square {
    match sq {
        Some((x, y)) => if on_board(x + dx, y + dy) {
            Some((x + dx, y + dy))
        } else {
            None
        },
        None => None,
    }
}

/// The square `n` steps from `sq` in direction `d`.
pub open spec fn offset(sq: Square, d: MoveDirection, n: int) -> Square {
    match d {
        MoveDirection::Up => shifted(sq, 0, n),
        MoveDirection::Down => shifted(sq, 0, -n),
        MoveDirection::Left => shifted(sq, -n, 0),
        MoveDirection::Right => shifted(sq, n, 0),
        MoveDirection::UpRight => shifted(sq, n, n),
        MoveDirection::UpLeft => shifted(sq, -n, n),
        MoveDirection::DownRight => shifted(sq, n, -n),
        MoveDirection::DownLeft => shifted(sq, -n, -n),
    }
}

/// How many squares of the board lie ahead of `sq` in direction `d`.
pub open spec fn span(sq: Square, d: MoveDirection) -> nat {
    match sq {
        Some((x, y)) => if on_board(x, y) {
            let ahead_x = if d.dx() > 0 {
                7 - x
            } else if d.dx() < 0 {
                x
            } else {
                7
            };
            let ahead_y = if d.dy() > 0 {
                7 - y
            } else if d.dy() < 0 {
                y
            } else {
                7
            };
            (if ahead_x <= ahead_y {
                ahead_x
            } else {
                ahead_y
            }) as nat
        } else {
            0
        },
        None => 0,
    }
}

#[derive(Clone, Copy, Debug, Hash, PartialEq, Eq, Structural)]
enum Repr {
    OffBoard,
    OnBoard(u8),
}

/// A square of the board, packed as `y * 8 + x`, or the off-board sentinel.
#[derive(Clone, Copy, Debug, Hash, PartialEq, Eq, Structural)]
pub struct Position {
    repr: Repr,
}

impl View for Position {
    type V = Square;

    closed spec fn view(&self) -> Square {
        match self.repr {
            Repr::OffBoard => None,
            Repr::OnBoard(i) => if i < 64 {
                Some((i as int % 8, i as int / 8))
            } else {
                None
            },
        }
    }
}

impl vstd::std_specs::convert::FromSpecImpl<(u8, u8)> for Position {
    open spec fn obeys_from_spec() -> bool {
        true
    }

    open spec fn from_spec(xy: (u8, u8)) -> Position {
        Position::spec_new(xy.0, xy.1)
    }
}

impl From<(u8, u8)> for Position {
    fn from(xy: (u8, u8)) -> (p: Position) {
        Position::new(xy.0, xy.1)
    }
}

impl Position {
    /// The packed index is below 64. Every value that executable code can hold
    /// satisfies this.
    #[verifier::type_invariant]
    pub closed spec fn valid(&self) -> bool {
        match self.repr {
            Repr::OffBoard => true,
            Repr::OnBoard(i) => i < 64,
        }
    }

    /// The position that stands for `sq`: the sentinel where `sq` is `None` or
    /// names no square of the board.
    pub closed spec fn at(sq: Square) -> Position {
        match sq {
            Some((x, y)) => if on_board(x, y) {
                Position { repr: Repr::OnBoard((y * 8 + x) as u8) }
            } else {
                Position { repr: Repr::OffBoard }
            },
            None => Position { repr: Repr::OffBoard },
        }
    }

    /// The sentinel.
    pub open spec fn spec_off_board() -> Position {
        Position::at(None)
    }

    /// What `new` makes of a file and a rank: the position of that square, or the
    /// sentinel where either is above 7.
    pub open spec fn spec_new(x: u8, y: u8) -> Position {
        Position::at(
            if x <= 7 && y <= 7 {
                Some((x as int, y as int))
            } else {
                None
            },
        )
    }

    /// What `to_xy` decodes a position to.
    pub open spec fn spec_to_xy(self) -> XY {
        match self@ {
            Some((x, y)) => XY::OnBoard(x as u8, y as u8),
            None => XY::OffBoard,
        }
    }

    /// Whether the position is a square of the board.
    pub open spec fn spec_is_on_board(&self) -> bool {
        self@ is Some
    }

    /// Where one step in `direction` leads.
    pub open spec fn spec_step(&self, direction: MoveDirection) -> Position {
        Position::at(shifted(self@, direction.dx(), direction.dy()))
    }

    /// Where one step up leads.
    pub open spec fn spec_up(&self) -> Position {
        self.spec_step(MoveDirection::Up)
    }

    /// Where one step down leads.
    pub open spec fn spec_down(&self) -> Position {
        self.spec_step(MoveDirection::Down)
    }

    /// Where one step to the left leads.
    pub open spec fn spec_left(&self) -> Position {
        self.spec_step(MoveDirection::Left)
    }

    /// Where one step to the right leads.
    pub open spec fn spec_right(&self) -> Position {
        self.spec_step(MoveDirection::Right)
    }

    /// Where one step up and to the right leads.
    pub open spec fn spec_up_right(&self) -> Position {
        self.spec_step(MoveDirection::UpRight)
    }

    /// Where one step up and to the left leads.
    pub open spec fn spec_up_left(&self) -> Position {
        self.spec_step(MoveDirection::UpLeft)
    }

    /// Where one step down and to the right leads.
    pub open spec fn spec_down_right(&self) -> Position {
        self.spec_step(MoveDirection::DownRight)
    }

    /// Where one step down and to the left leads.
    pub open spec fn spec_down_left(&self) -> Position {
        self.spec_step(MoveDirection::DownLeft)
    }

    /// The squares ahead of this one in `direction`, nearest first.
    pub open spec fn ray(self, direction: MoveDirection) -> Seq<Position> {
        Seq::new(span(self@, direction), |k: int| Position::at(offset(self@, direction, k + 1)))
    }

    /// Where a walk from `start` ends that takes the steps of `moves` in turn.
    pub open spec fn walk(start: Position, moves: Seq<MoveDirection>) -> Position
        decreases moves.len(),
    {
        if moves.len() == 0 {
            start
        } else {
            Position::walk(start, moves.drop_last()).spec_step(moves.last())
        }
    }

    /// What the view of a position can be: nothing, or a square of the board.
    pub proof fn lemma_view_on_board(self)
        ensures
            self@ matches Some((x, y)) ==> on_board(x, y),
    {
    }

    /// Two positions on the same square of the board are the same value, and so
    /// are two valid positions off the board.
    pub proof fn lemma_view_determines(self, other: Position)
        ensures
            self@ == other@ && (self@ is Some || (self.valid() && other.valid())) ==> self
                == other,
    {
    }

    /// `at` gives a valid position, whose view is the square it was made for.
    pub proof fn lemma_at(sq: Square)
        ensures
            Position::at(sq).valid(),
            Position::at(sq)@ == (match sq {
                Some((x, y)) => if on_board(x, y) {
                    sq
                } else {
                    None
                },
                None => None,
            }),
    {
    }

    /// A valid position is the one that `at` makes for its view.
    pub proof fn lemma_at_view(self)
        requires
            self.valid(),
        ensures
            Position::at(self@) == self,
    {
    }

    /// One step leads to a valid position, on the square that the shift gives.
    pub proof fn lemma_step(self, direction: MoveDirection)
        ensures
            self.spec_step(direction).valid(),
            self.spec_step(direction)@ == shifted(self@, direction.dx(), direction.dy()),
    {
    }

    /// A ray holds the squares one to `span` steps ahead, all of them on the
    /// board, and the square after its last lies outside.
    pub proof fn lemma_ray(self, direction: MoveDirection)
        ensures
            self.ray(direction).len() == span(self@, direction) <= 7,
            forall|k: int|
                0 <= k < span(self@, direction) ==> {
                    &&& (#[trigger] self.ray(direction)[k]).valid()
                    &&& self.ray(direction)[k]@ is Some
                    &&& self.ray(direction)[k]@ == offset(self@, direction, k + 1)
                },
            forall|n: int|
                n >= 1 ==> (#[trigger] offset(self@, direction, n) is Some <==> n <= span(
                    self@,
                    direction,
                )),
    {
        assert forall|n: int| n >= 1 implies (#[trigger] offset(self@, direction, n) is Some <==> n
            <= span(self@, direction)) by {
            self.lemma_view_on_board();
        }
    }

    /// Decoding what `new` made of a file and a rank gives them back; where
    /// either is above 7, `new` gives the sentinel, which decodes to the
    /// off-board tag.
    pub proof fn lemma_round_trip(x: u8, y: u8)
        ensures
            x <= 7 && y <= 7 ==> Position::new(x, y).to_xy() == XY::OnBoard(x, y),
            x > 7 || y > 7 ==> Position::new(x, y) == Position::off_board(),
            x > 7 || y > 7 ==> Position::new(x, y).to_xy() == XY::OffBoard,
            x > 7 || y > 7 ==> !Position::new(x, y).is_on_board(),
    {
    }

    /// The position on file `x` and rank `y` is the only one whose view is that
    /// square.
    pub proof fn lemma_new_is_the_square(self, x: u8, y: u8)
        requires
            x <= 7,
            y <= 7,
        ensures
            self@ == Some((x as int, y as int)) <==> self == Position::new(x, y),
    {
    }

    /// Two valid positions are equal exactly if they decode alike: any two off
    /// the board, and two on the board with the same file and rank.
    pub proof fn lemma_equal_as_decoded(self, other: Position)
        requires
            self.valid(),
            other.valid(),
        ensures
            self == other <==> self.to_xy() == other.to_xy(),
    {
    }

    /// Whatever is off the board stays where it is under every step and every
    /// walk: the sentinel is a fixed point.
    pub proof fn lemma_off_board_absorbs(self, direction: MoveDirection, moves: Seq<MoveDirection>)
        requires
            self.valid(),
            !self.is_on_board(),
        ensures
            self == Position::off_board(),
            self.step(direction) == self,
            self.up() == self,
            self.down() == self,
            self.left() == self,
            self.right() == self,
            self.up_right() == self,
            self.up_left() == self,
            self.down_right() == self,
            self.down_left() == self,
            self.ray(direction) == Seq::<Position>::empty(),
            Position::walk(self, moves) == self,
        decreases moves.len(),
    {
        if moves.len() > 0 {
            self.lemma_off_board_absorbs(moves.last(), moves.drop_last());
        }
    }

    /// No step wraps round an edge of the board: from the last file a step to
    /// the right leaves the board, as does a step up from the last rank, a
    /// step to the left from file 0 and a step down from rank 0.
    pub proof fn lemma_edges_do_not_wrap(x: u8, y: u8)
        ensures
            !Position::new(7, y).right().is_on_board(),
            !Position::new(x, 7).up().is_on_board(),
            !Position::new(0, y).left().is_on_board(),
            !Position::new(x, 0).down().is_on_board(),
            !Position::new(7, y).up_right().is_on_board(),
            !Position::new(7, y).down_right().is_on_board(),
            !Position::new(0, y).up_left().is_on_board(),
            !Position::new(0, y).down_left().is_on_board(),
            !Position::new(x, 7).up_right().is_on_board(),
            !Position::new(x, 7).up_left().is_on_board(),
            !Position::new(x, 0).down_right().is_on_board(),
            !Position::new(x, 0).down_left().is_on_board(),
    {
    }

    /// A step that stays on the board changes file and rank by what the
    /// direction says, and by nothing else.
    pub proof fn lemma_step_on_board(self, direction: MoveDirection)
        requires
            self.step(direction).is_on_board(),
        ensures
            self@ matches Some((x, y)) && self.step(direction)@ == Some(
                (x + direction.dx(), y + direction.dy()),
            ),
    {
    }

    /// The sentinel that stands for every place outside the board.
    #[verifier::when_used_as_spec(spec_off_board)]
    pub fn off_board() -> (p: Position)
        ensures
            p == Position::spec_off_board(),
            p@ is None,
    {
        Position { repr: Repr::OffBoard }
    }

    /// The square on file `x` and rank `y`; the sentinel if either is above 7.
    #[verifier::when_used_as_spec(spec_new)]
    pub fn new(x: u8, y: u8) -> (p: Position)
        ensures
            p == Position::spec_new(x, y),
            x <= 7 && y <= 7 ==> p@ == Some((x as int, y as int)),
            x > 7 || y > 7 ==> p@ is None,
    {
        if x > 7 || y > 7 {
            return Position { repr: Repr::OffBoard };
        }
        let repr: u8 = y * 8 + x;

        Position { repr: Repr::OnBoard(repr) }
    }

    /// File and rank of a square of the board, or the off-board tag.
    #[verifier::when_used_as_spec(spec_to_xy)]
    pub fn to_xy(self) -> (xy: XY)
        ensures
            xy == self.spec_to_xy(),
    {
        proof {
            use_type_invariant(&self);
        }
        match self.repr {
            Repr::OffBoard => XY::OffBoard,
            Repr::OnBoard(repr) => {
                let x: u8 = repr % 8;
                let y: u8 = repr / 8;
                XY::OnBoard(x, y)
            },
        }
    }

    /// One rank up.
    #[verifier::when_used_as_spec(spec_up)]
    pub fn up(&self) -> (p: Position)
        ensures
            p == self.spec_up(),
            p@ == shifted(self@, 0, 1),
            self@ is None ==> p == *self,
    {
        proof {
            use_type_invariant(self);
        }
        match self.repr {
            Repr::OffBoard => *self,
            Repr::OnBoard(repr) => {
                if repr + 8 > 63 {
                    Position::off_board()
                } else {
                    Position { repr: Repr::OnBoard(repr + 8) }
                }
            },
        }
    }

    /// One rank down.
    #[verifier::when_used_as_spec(spec_down)]
    pub fn down(&self) -> (p: Position)
        ensures
            p == self.spec_down(),
            p@ == shifted(self@, 0, -1),
            self@ is None ==> p == *self,
    {
        proof {
            use_type_invariant(self);
        }
        match self.repr {
            Repr::OffBoard => *self,
            Repr::OnBoard(repr) => {
                if let Some(new_repr) = repr.checked_sub(8) {
                    Position { repr: Repr::OnBoard(new_repr) }
                } else {
                    Position::off_board()
                }
            },
        }
    }

    /// One file to the left. A step from file 0 leaves the board: it does not
    /// land on file 7 of the rank below.
    #[verifier::when_used_as_spec(spec_left)]
    pub fn left(&self) -> (p: Position)
        ensures
            p == self.spec_left(),
            p@ == shifted(self@, -1, 0),
            self@ is None ==> p == *self,
    {
        proof {
            use_type_invariant(self);
        }
        match self.repr {
            Repr::OffBoard => *self,
            Repr::OnBoard(repr) => {
                if let Some(possible_repr) = repr.checked_sub(1) {
                    if crosses_row_boundary(repr, possible_repr) {
                        Position::off_board()
                    } else {
                        Position { repr: Repr::OnBoard(possible_repr) }
                    }
                } else {
                    Position::off_board()
                }
            },
        }
    }

    /// One file to the right. A step from file 7 leaves the board: it does not
    /// land on file 0 of the rank above.
    #[verifier::when_used_as_spec(spec_right)]
    pub fn right(&self) -> (p: Position)
        ensures
            p == self.spec_right(),
            p@ == shifted(self@, 1, 0),
            self@ is None ==> p == *self,
    {
        proof {
            use_type_invariant(self);
        }
        match self.repr {
            Repr::OffBoard => *self,
            Repr::OnBoard(repr) => {
                if crosses_row_boundary(repr, repr + 1) || repr + 1 > 63 {
                    Position::off_board()
                } else {
                    Position { repr: Repr::OnBoard(repr + 1) }
                }
            },
        }
    }

    /// One rank up, then one file to the right.
    #[verifier::when_used_as_spec(spec_up_right)]
    pub fn up_right(&self) -> (p: Position)
        ensures
            p == self.spec_up_right(),
            p@ == shifted(self@, 1, 1),
            self@ is None ==> p == *self,
    {
        self.up().right()
    }

    /// One rank up, then one file to the left.
    #[verifier::when_used_as_spec(spec_up_left)]
    pub fn up_left(&self) -> (p: Position)
        ensures
            p == self.spec_up_left(),
            p@ == shifted(self@, -1, 1),
            self@ is None ==> p == *self,
    {
        self.up().left()
    }

    /// One rank down, then one file to the right.
    #[verifier::when_used_as_spec(spec_down_right)]
    pub fn down_right(&self) -> (p: Position)
        ensures
            p == self.spec_down_right(),
            p@ == shifted(self@, 1, -1),
            self@ is None ==> p == *self,
    {
        self.down().right()
    }

    /// One rank down, then one file to the left.
    #[verifier::when_used_as_spec(spec_down_left)]
    pub fn down_left(&self) -> (p: Position)
        ensures
            p == self.spec_down_left(),
            p@ == shifted(self@, -1, -1),
            self@ is None ==> p == *self,
    {
        self.down().left()
    }

    /// One step in `direction`.
    #[verifier::when_used_as_spec(spec_step)]
    pub fn step(&self, direction: MoveDirection) -> (p: Position)
        ensures
            p == self.spec_step(direction),
            p@ == shifted(self@, direction.dx(), direction.dy()),
            self@ is None ==> p == *self,
    {
        match direction {
            MoveDirection::Up => self.up(),
            MoveDirection::Down => self.down(),
            MoveDirection::Left => self.left(),
            MoveDirection::Right => self.right(),
            MoveDirection::UpRight => self.up_right(),
            MoveDirection::UpLeft => self.up_left(),
            MoveDirection::DownRight => self.down_right(),
            MoveDirection::DownLeft => self.down_left(),
        }
    }

    /// The squares ahead in `direction`, nearest first, up to the edge of the
    /// board. This square itself is not among them. Every call builds the
    /// sequence anew.
    pub fn stream(self, direction: MoveDirection) -> (squares: Vec<Position>)
        ensures
            squares@ == self.ray(direction),
    {
        let mut squares: Vec<Position> = Vec::new();
        let mut position_state = self.step(direction);
        proof {
            lemma_ray_first(self, direction);
        }
        while position_state.is_on_board()
            invariant
                squares@.len() <= span(self@, direction),
                position_state == Position::at(
                    offset(self@, direction, squares@.len() as int + 1),
                ),
                forall|k: int|
                    0 <= k < squares@.len() ==> squares@[k] == Position::at(
                        offset(self@, direction, k + 1),
                    ),
            decreases span(self@, direction) - squares@.len(),
        {
            proof {
                lemma_ray_next(self, direction, squares@.len() as int + 1);
            }
            squares.push(position_state);
            position_state = position_state.step(direction);
        }
        proof {
            lemma_ray_end(self, direction, squares@.len() as int + 1);
        }
        squares
    }

    /// The walk that takes the steps of `moves` in turn, as a function of the
    /// square it starts from.
    pub fn compose<const N: usize>(moves: [MoveDirection; N]) -> (walk: impl Fn(Position) -> Position)
        ensures
            forall|start: Position| call_requires(walk, (start,)),
            forall|start: Position, end: Position|
                call_ensures(walk, (start,), end) ==> end == Position::walk(start, moves@),
    {
        move |starting_position: Position| -> (end: Position)
            ensures
                end == Position::walk(starting_position, moves@),
            { follow(starting_position, moves.as_slice()) }
    }

    /// Whether this is a square of the board.
    #[verifier::when_used_as_spec(spec_is_on_board)]
    pub fn is_on_board(&self) -> (b: bool)
        ensures
            b == self.spec_is_on_board(),
    {
        proof {
            use_type_invariant(self);
        }
        match self.repr {
            Repr::OffBoard => false,
            Repr::OnBoard(_) => true,
        }
    }
}

/// Takes the steps of `moves` in turn, from `start`.
fn follow(start: Position, moves: &[MoveDirection]) -> (end: Position)
    ensures
        end == Position::walk(start, moves@),
{
    let mut position = start;
    let mut i: usize = 0;
    while i < moves.len()
        invariant
            i <= moves@.len(),
            position == Position::walk(start, moves@.take(i as int)),
        decreases moves@.len() - i,
    {
        proof {
            assert(moves@.take(i + 1).drop_last() =~= moves@.take(i as int));
        }
        position = position.step(moves[i]);
        i = i + 1;
    }
    proof {
        assert(moves@.take(i as int) =~= moves@);
    }
    position
}

/// The first step of a ray leads to the square one step ahead.
proof fn lemma_ray_first(p: Position, d: MoveDirection)
    ensures
        p.spec_step(d) == Position::at(offset(p@, d, 1)),
{
}

/// While the square `n` steps ahead lies on the board, it is within the span,
/// and one more step leads to the square `n + 1` steps ahead.
proof fn lemma_ray_next(p: Position, d: MoveDirection, n: int)
    requires
        n >= 1,
        Position::at(offset(p@, d, n))@ is Some,
    ensures
        n <= span(p@, d),
        Position::at(offset(p@, d, n)).spec_step(d) == Position::at(offset(p@, d, n + 1)),
{
    p.lemma_view_on_board();
    Position::lemma_at(offset(p@, d, n));
}

/// Once the square `n` steps ahead lies off the board, the span is below `n`.
proof fn lemma_ray_end(p: Position, d: MoveDirection, n: int)
    requires
        n >= 1,
        Position::at(offset(p@, d, n))@ is None,
    ensures
        span(p@, d) < n,
{
    p.lemma_view_on_board();
    Position::lemma_at(offset(p@, d, n));
}

fn crosses_row_boundary(previous: u8, next: u8) -> (crosses: bool)
    ensures
        crosses == (previous / 8 != next / 8),
{
    previous / 8 != next / 8
}

} // verus!
