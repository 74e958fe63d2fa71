use chess::board::Board;
use chess::piece::{AnyPiece, Bishop, Color, King, Knight, Pawn, Piece, Queen, Rook};
use chess::position::Position;

#[test]
fn board_display() {
    let expected = r#"
┌───────────────────────────────┐
│ ♜ │ ♞ │ ♝ │ ♛ │ ♚ │ ♝ │ ♞ │ ♜ │
│ ♟ │ ♟ │ ♟ │ ♟ │ ♟ │ ♟ │ ♟ │ ♟ │
│   │ ▀ │   │ ▀ │   │ ▀ │   │ ▀ │
│ ▀ │   │ ▀ │   │ ▀ │   │ ▀ │   │
│   │ ▀ │   │ ▀ │   │ ▀ │   │ ▀ │
│ ▀ │   │ ▀ │   │ ▀ │   │ ▀ │   │
│ ♙ │ ♙ │ ♙ │ ♙ │ ♙ │ ♙ │ ♙ │ ♙ │
│ ♖ │ ♘ │ ♗ │ ♕ │ ♔ │ ♗ │ ♘ │ ♖ │
└───────────────────────────────┘
"#
    .trim();

    let board = Board::default();

    assert_eq!(board.to_string(), expected);
}

#[test]
fn piece_display() {
    let expected_black = ["♟", "♞", "♝", "♜", "♛", "♚"];
    let expected_white = ["♙", "♘", "♗", "♖", "♕", "♔"];

    let pawn: Pawn = Pawn::new(Color::Black, Position::new(0, 0));
    let knight: Knight = Knight::new(Color::Black, Position::new(0, 0));
    let bishop: Bishop = Bishop::new(Color::Black, Position::new(0, 0));
    let rook: Rook = Rook::new(Color::Black, Position::new(0, 0));
    let queen: Queen = Queen::new(Color::Black, Position::new(0, 0));
    let king: King = King::new(Color::Black, Position::new(0, 0));

    let pieces_black: [AnyPiece; 6] = [
        AnyPiece::Pawn(pawn),
        AnyPiece::Knight(knight),
        AnyPiece::Bishop(bishop),
        AnyPiece::Rook(rook),
        AnyPiece::Queen(queen),
        AnyPiece::King(king),
    ];

    for (piece, expected_piece_string) in pieces_black.iter().zip(expected_black) {
        assert_eq!(piece.to_string(), expected_piece_string);
    }

    let pawn: Pawn = Pawn::new(Color::White, Position::new(0, 0));
    let knight: Knight = Knight::new(Color::White, Position::new(0, 0));
    let bishop: Bishop = Bishop::new(Color::White, Position::new(0, 0));
    let rook: Rook = Rook::new(Color::White, Position::new(0, 0));
    let queen: Queen = Queen::new(Color::White, Position::new(0, 0));
    let king: King = King::new(Color::White, Position::new(0, 0));

    let pieces_white: [AnyPiece; 6] = [
        AnyPiece::Pawn(pawn),
        AnyPiece::Knight(knight),
        AnyPiece::Bishop(bishop),
        AnyPiece::Rook(rook),
        AnyPiece::Queen(queen),
        AnyPiece::King(king),
    ];

    for (piece, expected_piece_string) in pieces_white.iter().zip(expected_white) {
        assert_eq!(piece.to_string(), expected_piece_string);
    }
}
