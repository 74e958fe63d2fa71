use chess::board::Board;
use chess::piece::{AnyPiece, Bishop, Color, King, Knight, Pawn, Piece, Queen, Rook};
use chess::position::Position;

fn at(x: u8, y: u8) -> Position {
    Position::new(x, y)
}

#[test]
fn empty_board_holds_nothing() {
    let board = Board::empty();
    assert!(board.pieces().is_empty());
    for y in 0..8 {
        for x in 0..8 {
            assert!(!board.has_piece(at(x, y)));
            assert!(!board.has_piece_of(Color::Black, at(x, y)));
            assert!(!board.has_piece_of(Color::White, at(x, y)));
            assert!(board.piece_at(at(x, y)).is_none());
        }
    }
}

#[test]
fn board_keeps_its_pieces_in_order() {
    let pieces = vec![
        AnyPiece::Rook(Rook::new(Color::White, at(0, 0))),
        AnyPiece::King(King::new(Color::Black, at(4, 7))),
        AnyPiece::Pawn(Pawn::new(Color::White, at(3, 1))),
    ];
    let board = Board::new(pieces.clone());
    assert_eq!(board.pieces(), pieces.as_slice());
}

#[test]
fn board_knows_who_stands_where() {
    let board = Board::new(vec![
        AnyPiece::Rook(Rook::new(Color::White, at(0, 0))),
        AnyPiece::King(King::new(Color::Black, at(4, 7))),
    ]);
    assert!(board.has_piece(at(0, 0)));
    assert!(board.has_piece_of(Color::White, at(0, 0)));
    assert!(!board.has_piece_of(Color::Black, at(0, 0)));
    assert!(board.has_piece(at(4, 7)));
    assert!(board.has_piece_of(Color::Black, at(4, 7)));
    assert!(!board.has_piece_of(Color::White, at(4, 7)));
    assert!(!board.has_piece(at(4, 6)));
    assert_eq!(
        board.piece_at(at(4, 7)),
        Some(&AnyPiece::King(King::new(Color::Black, at(4, 7))))
    );
    assert_eq!(board.piece_at(at(1, 0)), None);
}

#[test]
fn of_two_pieces_on_a_square_the_later_is_seen() {
    let board = Board::new(vec![
        AnyPiece::Rook(Rook::new(Color::White, at(2, 2))),
        AnyPiece::Knight(Knight::new(Color::Black, at(2, 2))),
    ]);
    assert_eq!(
        board.piece_at(at(2, 2)),
        Some(&AnyPiece::Knight(Knight::new(Color::Black, at(2, 2))))
    );
    assert!(board.has_piece_of(Color::White, at(2, 2)));
    assert!(board.has_piece_of(Color::Black, at(2, 2)));
}

#[test]
fn starting_board_has_thirty_two_pieces() {
    let board = Board::default();
    assert_eq!(board.pieces().len(), 32);
    for x in 0..8 {
        assert_eq!(
            board.piece_at(at(x, 1)),
            Some(&AnyPiece::Pawn(Pawn::new(Color::White, at(x, 1))))
        );
        assert_eq!(
            board.piece_at(at(x, 6)),
            Some(&AnyPiece::Pawn(Pawn::new(Color::Black, at(x, 6))))
        );
        for y in 2..6 {
            assert!(!board.has_piece(at(x, y)));
        }
        assert!(board.has_piece_of(Color::White, at(x, 0)));
        assert!(board.has_piece_of(Color::Black, at(x, 7)));
    }
    assert_eq!(
        board.piece_at(at(3, 0)),
        Some(&AnyPiece::Queen(Queen::new(Color::White, at(3, 0))))
    );
    assert_eq!(
        board.piece_at(at(4, 7)),
        Some(&AnyPiece::King(King::new(Color::Black, at(4, 7))))
    );
    assert_eq!(
        board.piece_at(at(5, 7)),
        Some(&AnyPiece::Bishop(Bishop::new(Color::Black, at(5, 7))))
    );
}

#[test]
fn starting_board_lets_only_pawns_and_knights_move() {
    let board = Board::default();
    for piece in board.pieces() {
        let count = piece.moves(&board).len();
        match piece {
            AnyPiece::Pawn(_) => assert_eq!(count, 2),
            AnyPiece::Knight(_) => assert_eq!(count, 2),
            _ => assert_eq!(count, 0),
        }
    }
}

#[test]
fn empty_board_in_print() {
    let expected = [
        "┌───────────────────────────────┐",
        "│   │ ▀ │   │ ▀ │   │ ▀ │   │ ▀ │",
        "│ ▀ │   │ ▀ │   │ ▀ │   │ ▀ │   │",
        "│   │ ▀ │   │ ▀ │   │ ▀ │   │ ▀ │",
        "│ ▀ │   │ ▀ │   │ ▀ │   │ ▀ │   │",
        "│   │ ▀ │   │ ▀ │   │ ▀ │   │ ▀ │",
        "│ ▀ │   │ ▀ │   │ ▀ │   │ ▀ │   │",
        "│   │ ▀ │   │ ▀ │   │ ▀ │   │ ▀ │",
        "│ ▀ │   │ ▀ │   │ ▀ │   │ ▀ │   │",
        "└───────────────────────────────┘",
    ]
    .join("\n");
    assert_eq!(Board::empty().to_string(), expected);
}

#[test]
fn board_in_print_shows_the_piece_listed_last() {
    let board = Board::new(vec![
        AnyPiece::Rook(Rook::new(Color::White, at(0, 7))),
        AnyPiece::Knight(Knight::new(Color::Black, at(0, 7))),
        AnyPiece::Queen(Queen::new(Color::White, Position::off_board())),
    ]);
    let text = board.to_string();
    let second_line = text.lines().nth(1).map(|line| line.to_string());
    assert_eq!(
        second_line,
        Some("│ ♞ │ ▀ │   │ ▀ │   │ ▀ │   │ ▀ │".to_string())
    );
    assert!(!text.contains('♕'));
    assert!(!text.contains('♖'));
}
