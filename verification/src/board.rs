//! A snapshot of the pieces on the board, and who stands where.
//!
//! The rules read a board through its occupants: the colour and the square of
//! each piece, in the order of the piece list.

use crate::piece::{AnyPiece, Bishop, Color, King, Knight, Pawn, Piece, Queen, Rook};
use crate::position::{Position, Square};
use vstd::prelude::*;
use vstd::string::*;

verus! {

/// The occupants of a board: colour and square of each piece, in the order of
/// the piece list.
pub type Occupants = Seq<(Color, Square)>;

/// Whether a piece of `color` stands on `square`.
pub open spec fn occupied_by(occupants: Occupants, color: Color, square: Square) -> bool {
    occupants.contains((color, square))
}

/// Whether any piece stands on `square`.
pub open spec fn occupied(occupants: Occupants, square: Square) -> bool {
    occupied_by(occupants, Color::Black, square) || occupied_by(occupants, Color::White, square)
}

/// The place in the list of the piece that is seen on `square`: of those that
/// stand there, the one listed last.
pub open spec fn seen_at(occupants: Occupants, square: Square) -> Option<int>
    decreases occupants.len(),
{
    if occupants.len() == 0 {
        None
    } else if occupants.last().1 == square {
        Some(occupants.len() - 1)
    } else {
        seen_at(occupants.drop_last(), square)
    }
}

/// The colour of the piece that is seen on `square`.
pub open spec fn occupant(occupants: Occupants, square: Square) -> Option<Color> {
    match seen_at(occupants, square) {
        Some(i) => Some(occupants[i].0),
        None => None,
    }
}

/// No square of the board holds two pieces.
pub open spec fn one_per_square(occupants: Occupants) -> bool {
    forall|i: int, j: int|
        0 <= i < j < occupants.len() && occupants[i].1 is Some ==> occupants[i].1
            != occupants[j].1
}

/// With one more piece on the board, a square holds a piece of `color` if it
/// did before or if the new piece is that.
pub proof fn lemma_occupied_by_push(
    occupants: Occupants,
    added: (Color, Square),
    color: Color,
    square: Square,
)
    ensures
        occupied_by(occupants.push(added), color, square) <==> occupied_by(
            occupants,
            color,
            square,
        ) || added == (color, square),
{
    let more = occupants.push(added);
    if occupied_by(occupants, color, square) {
        let i = choose|i: int| 0 <= i < occupants.len() && occupants[i] == (color, square);
        assert(more[i] == (color, square));
    }
    if added == (color, square) {
        assert(more[occupants.len() as int] == (color, square));
    }
}

/// The piece seen on a square stands on it, and no piece listed after it does;
/// where none is seen, none stands there.
pub proof fn lemma_seen_at(occupants: Occupants, square: Square)
    ensures
        match seen_at(occupants, square) {
            Some(i) => 0 <= i < occupants.len() && occupants[i].1 == square && forall|j: int|
                i < j < occupants.len() ==> occupants[j].1 != square,
            None => forall|j: int| 0 <= j < occupants.len() ==> occupants[j].1 != square,
        },
    decreases occupants.len(),
{
    if occupants.len() > 0 && occupants.last().1 != square {
        let rest = occupants.drop_last();
        lemma_seen_at(rest, square);
        assert(forall|j: int| 0 <= j < rest.len() ==> rest[j] == occupants[j]);
    }
}

/// A square is occupied exactly where a piece is seen on it.
pub proof fn lemma_occupant_occupied(occupants: Occupants, square: Square)
    ensures
        occupant(occupants, square) is Some <==> occupied(occupants, square),
{
    lemma_seen_at(occupants, square);
    if occupied(occupants, square) {
        let c = if occupied_by(occupants, Color::Black, square) {
            Color::Black
        } else {
            Color::White
        };
        let i = choose|i: int| 0 <= i < occupants.len() && occupants[i] == (c, square);
        assert(occupants[i].1 == square);
    }
}

/// Where no square of the board holds two pieces, the piece seen on a square
/// of the board is the only one that stands there.
pub proof fn lemma_occupant_one_per_square(occupants: Occupants, color: Color, square: Square)
    requires
        one_per_square(occupants),
        square is Some,
    ensures
        occupant(occupants, square) == Some(color) <==> occupied_by(occupants, color, square),
{
    lemma_seen_at(occupants, square);
    if occupied_by(occupants, color, square) {
        let i = choose|i: int| 0 <= i < occupants.len() && occupants[i] == (color, square);
        assert(occupants[i].1 == square);
    }
}

/// The eight pawns of `color` on rank `y`, from file 0 to file 7.
pub open spec fn pawns(color: Color, y: u8) -> Seq<AnyPiece> {
    Seq::new(8, |x: int| AnyPiece::Pawn(Pawn::new(color, Position::new(x as u8, y))))
}

/// The eight officers of `color` on rank `y`: the rooks, the knights, the
/// bishops, the queen, the king.
pub open spec fn officers(color: Color, y: u8) -> Seq<AnyPiece> {
    seq![
        AnyPiece::Rook(Rook::new(color, Position::new(0, y))),
        AnyPiece::Rook(Rook::new(color, Position::new(7, y))),
        AnyPiece::Knight(Knight::new(color, Position::new(1, y))),
        AnyPiece::Knight(Knight::new(color, Position::new(6, y))),
        AnyPiece::Bishop(Bishop::new(color, Position::new(2, y))),
        AnyPiece::Bishop(Bishop::new(color, Position::new(5, y))),
        AnyPiece::Queen(Queen::new(color, Position::new(3, y))),
        AnyPiece::King(King::new(color, Position::new(4, y))),
    ]
}

/// The thirty-two pieces as a game starts: White on ranks 0 and 1, Black on
/// ranks 7 and 6.
pub open spec fn starting_pieces() -> Seq<AnyPiece> {
    pawns(Color::White, 1) + pawns(Color::Black, 6) + officers(Color::White, 0) + officers(
        Color::Black,
        7,
    )
}

/// A run of `n` horizontal bars.
pub open spec fn bars(n: nat) -> Seq<char> {
    Seq::new(n, |i: int| '\u{2500}')
}

/// The upper edge of the printed board.
pub open spec fn top_border() -> Seq<char> {
    seq!['\u{250C}'] + bars(31) + seq!['\u{2510}']
}

/// The lower edge of the printed board.
pub open spec fn bottom_border() -> Seq<char> {
    seq!['\u{2514}'] + bars(31) + seq!['\u{2518}']
}

/// The pieces of one instant of a game, in the order they were given.
pub struct Board {
    pieces: Vec<AnyPiece>,
}

impl View for Board {
    type V = Seq<AnyPiece>;

    closed spec fn view(&self) -> Seq<AnyPiece> {
        self.pieces@
    }
}

impl Board {
    /// Colour and square of each piece, in the order of the list.
    pub open spec fn occupants(&self) -> Occupants {
        Seq::new(self@.len(), |i: int| (self@[i].placement().0, self@[i].placement().1@))
    }

    /// What is printed for the square on file `x` and rank `y`: the symbol of
    /// the piece seen there, else a dark or a light field.
    pub open spec fn cell(&self, x: int, y: int) -> Seq<char> {
        match seen_at(self.occupants(), Some((x, y))) {
            Some(i) => self@[i].symbol(),
            None => if (x + y) % 2 == 0 {
                seq!['\u{2580}']
            } else {
                seq![' ']
            },
        }
    }

    /// The first `n` cells of rank `y`, a bar between each two.
    pub open spec fn cells(&self, y: int, n: nat) -> Seq<char>
        decreases n,
    {
        if n == 0 {
            Seq::empty()
        } else if n == 1 {
            self.cell(0, y)
        } else {
            self.cells(y, (n - 1) as nat) + seq![' ', '\u{2502}', ' '] + self.cell(n - 1, y)
        }
    }

    /// The line printed for rank `y`.
    pub open spec fn row(&self, y: int) -> Seq<char> {
        seq!['\u{2502}', ' '] + self.cells(y, 8) + seq![' ', '\u{2502}']
    }

    /// The lines of the `n` highest ranks, rank 7 first, each after a line
    /// break.
    pub open spec fn rows(&self, n: nat) -> Seq<char>
        decreases n,
    {
        if n == 0 {
            Seq::empty()
        } else {
            self.rows((n - 1) as nat) + seq!['\n'] + self.row(8 - n)
        }
    }

    /// The board in print: rank 7 at the top, file 0 at the left, within a
    /// frame.
    pub open spec fn rendering(&self) -> Seq<char> {
        top_border() + self.rows(8) + seq!['\n'] + bottom_border()
    }

    /// A board that holds `pieces`. Nothing is asked of them: two may stand on
    /// one square, and any may stand off the board.
    pub fn new(pieces: Vec<AnyPiece>) -> (board: Board)
        ensures
            board@ == pieces@,
    {
        Board { pieces }
    }

    /// A board without pieces.
    pub fn empty() -> (board: Board)
        ensures
            board@ == Seq::<AnyPiece>::empty(),
    {
        Board { pieces: Vec::new() }
    }

    /// The pieces, in the order they were given.
    pub fn pieces(&self) -> (pieces: &[AnyPiece])
        ensures
            pieces@ == self@,
    {
        self.pieces.as_slice()
    }

    /// Whether a piece of `color` stands on `position`.
    pub fn has_piece_of(&self, color: Color, position: Position) -> (found: bool)
        ensures
            found == occupied_by(self.occupants(), color, position@),
    {
        let mut i: usize = 0;
        while i < self.pieces.len()
            invariant
                i <= self.pieces@.len(),
                forall|k: int| 0 <= k < i ==> self.occupants()[k] != (color, position@),
            decreases self.pieces@.len() - i,
        {
            let piece_color = self.pieces[i].color();
            let piece_position = self.pieces[i].position();
            if piece_color == color && piece_position == position {
                assert(self.occupants()[i as int] == (color, position@));
                return true;
            }
            proof {
                use_type_invariant(&piece_position);
                use_type_invariant(&position);
                if piece_position@ == position@ {
                    piece_position.lemma_view_determines(position);
                }
            }
            i = i + 1;
        }
        false
    }

    /// Whether any piece stands on `position`.
    pub fn has_piece(&self, position: Position) -> (found: bool)
        ensures
            found == occupied(self.occupants(), position@),
    {
        self.has_piece_of(Color::Black, position) || self.has_piece_of(Color::White, position)
    }

    /// The piece that is seen on `position`: of those that stand there, the one
    /// listed last.
    pub fn piece_at(&self, position: Position) -> (piece: Option<&AnyPiece>)
        ensures
            match seen_at(self.occupants(), position@) {
                Some(i) => piece == Some(&self@[i]),
                None => piece is None,
            },
            occupant(self.occupants(), position@) == match piece {
                Some(seen) => Some(seen.placement().0),
                None => None,
            },
    {
        let mut i: usize = self.pieces.len();
        while i > 0
            invariant
                i <= self.pieces@.len(),
                forall|k: int| i <= k < self.pieces@.len() ==> self.occupants()[k].1 != position@,
            decreases i,
        {
            i = i - 1;
            let piece_position = self.pieces[i].position();
            if piece_position == position {
                proof {
                    lemma_seen_at(self.occupants(), position@);
                    assert(self.occupants()[i as int].1 == position@);
                }
                return Some(&self.pieces[i]);
            }
            proof {
                use_type_invariant(&piece_position);
                use_type_invariant(&position);
                if piece_position@ == position@ {
                    piece_position.lemma_view_determines(position);
                }
            }
        }
        proof {
            lemma_seen_at(self.occupants(), position@);
        }
        None
    }

    /// The board in print.
    pub fn to_string(&self) -> (text: String)
        ensures
            text@ == self.rendering(),
    {
        let mut out = String::from_str("\u{250C}");
        append_bars(&mut out);
        out.append("\u{2510}");
        proof {
            reveal_strlit("\u{250C}");
            reveal_strlit("\u{2510}");
        }
        let mut y: u8 = 8;
        while y > 0
            invariant
                y <= 8,
                out@ == top_border() + self.rows((8 - y) as nat),
            decreases y,
        {
            y = y - 1;
            let ghost above = out@;
            out.append("\n\u{2502} ");
            proof {
                reveal_strlit("\n\u{2502} ");
            }
            let mut x: u8 = 0;
            while x < 8
                invariant
                    x <= 8,
                    y < 8,
                    out@ == above + seq!['\n', '\u{2502}', ' '] + self.cells(y as int, x as nat),
                decreases 8 - x,
            {
                if x > 0 {
                    out.append(" \u{2502} ");
                }
                match self.piece_at(Position::new(x, y)) {
                    Some(piece) => {
                        let glyph = piece.to_string();
                        out.append(glyph.as_str());
                    },
                    None => {
                        if (x + y) % 2 == 0 {
                            out.append("\u{2580}");
                        } else {
                            out.append(" ");
                        }
                    },
                }
                proof {
                    reveal_strlit(" \u{2502} ");
                    reveal_strlit("\u{2580}");
                    reveal_strlit(" ");
                    lemma_seen_at(self.occupants(), Some((x as int, y as int)));
                    assert(out@ =~= above + seq!['\n', '\u{2502}', ' '] + self.cells(
                        y as int,
                        (x + 1) as nat,
                    ));
                }
                x = x + 1;
            }
            out.append(" \u{2502}");
            proof {
                reveal_strlit(" \u{2502}");
            }
        }
        out.append("\n\u{2514}");
        append_bars(&mut out);
        out.append("\u{2518}");
        proof {
            reveal_strlit("\n\u{2514}");
            reveal_strlit("\u{2518}");
        }
        out
    }
}

/// Appends the bars of a border.
fn append_bars(out: &mut String)
    ensures
        final(out)@ == old(out)@ + bars(31),
{
    let mut i: usize = 0;
    while i < 31
        invariant
            i <= 31,
            out@ == old(out)@ + bars(i as nat),
        decreases 31 - i,
    {
        out.append("\u{2500}");
        proof {
            reveal_strlit("\u{2500}");
        }
        i = i + 1;
    }
}

/// Appends the eight pawns of `color` on rank `y`.
fn push_pawns(pieces: &mut Vec<AnyPiece>, color: Color, y: u8)
    ensures
        final(pieces)@ == old(pieces)@ + pawns(color, y),
{
    let mut x: u8 = 0;
    while x < 8
        invariant
            x <= 8,
            pieces@ == old(pieces)@ + pawns(color, y).take(x as int),
        decreases 8 - x,
    {
        pieces.push(AnyPiece::Pawn(Pawn::new(color, Position::new(x, y))));
        x = x + 1;
    }
}

/// Appends the eight officers of `color` on rank `y`.
fn push_officers(pieces: &mut Vec<AnyPiece>, color: Color, y: u8)
    ensures
        final(pieces)@ == old(pieces)@ + officers(color, y),
{
    pieces.push(AnyPiece::Rook(Rook::new(color, Position::new(0, y))));
    pieces.push(AnyPiece::Rook(Rook::new(color, Position::new(7, y))));
    pieces.push(AnyPiece::Knight(Knight::new(color, Position::new(1, y))));
    pieces.push(AnyPiece::Knight(Knight::new(color, Position::new(6, y))));
    pieces.push(AnyPiece::Bishop(Bishop::new(color, Position::new(2, y))));
    pieces.push(AnyPiece::Bishop(Bishop::new(color, Position::new(5, y))));
    pieces.push(AnyPiece::Queen(Queen::new(color, Position::new(3, y))));
    pieces.push(AnyPiece::King(King::new(color, Position::new(4, y))));
}

impl Default for Board {
    /// The board as a game starts.
    fn default() -> (board: Board)
        ensures
            board@ == starting_pieces(),
    {
        let mut pieces: Vec<AnyPiece> = Vec::new();
        push_pawns(&mut pieces, Color::White, 1);
        push_pawns(&mut pieces, Color::Black, 6);
        push_officers(&mut pieces, Color::White, 0);
        push_officers(&mut pieces, Color::Black, 7);
        Board { pieces }
    }
}

} // verus!
