use chess::board::Board;
use chess::piece::{slide, AnyPiece, Bishop, Color, King, Knight, Pawn, Piece, Queen, Rook};
use chess::position::{MoveDirection, Position, XY};
use std::collections::HashSet;

fn at(x: u8, y: u8) -> Position {
    Position::new(x, y)
}

fn pawn_on(color: Color, x: u8, y: u8) -> AnyPiece {
    AnyPiece::Pawn(Pawn::new(color, at(x, y)))
}

fn squares(list: &[(u8, u8)]) -> HashSet<Position> {
    list.iter().map(|&(x, y)| at(x, y)).collect()
}

fn as_set(destinations: Vec<Position>) -> HashSet<Position> {
    let count = destinations.len();
    let set: HashSet<Position> = destinations.into_iter().collect();
    assert_eq!(set.len(), count, "a destination is listed twice");
    set
}

#[test]
fn knight_in_the_middle_has_eight_destinations() {
    let knight = Knight::new(Color::Black, at(4, 4));
    assert_eq!(knight.moves(&Board::empty()).len(), 8);
}

#[test]
fn knight_in_the_corner_has_two_destinations() {
    let knight = Knight::new(Color::White, at(0, 0));
    assert_eq!(
        as_set(knight.moves(&Board::empty())),
        squares(&[(1, 2), (2, 1)])
    );
}

#[test]
fn knight_jumps_over_pieces() {
    let board = Board::new(vec![
        pawn_on(Color::Black, 4, 5),
        pawn_on(Color::Black, 5, 4),
        pawn_on(Color::White, 4, 3),
        pawn_on(Color::White, 3, 4),
        pawn_on(Color::White, 5, 5),
    ]);
    let knight = Knight::new(Color::Black, at(4, 4));
    assert_eq!(knight.moves(&board).len(), 8);
}

#[test]
fn own_piece_takes_one_destination_from_knight() {
    let knight = Knight::new(Color::Black, at(4, 4));
    let free = as_set(knight.moves(&Board::empty()));
    for &target in free.iter() {
        let board = Board::new(vec![AnyPiece::Pawn(Pawn::new(Color::Black, target))]);
        let blocked = as_set(knight.moves(&board));
        let mut expected = free.clone();
        expected.remove(&target);
        assert_eq!(blocked, expected);
    }
}

#[test]
fn opponent_takes_no_destination_from_knight() {
    let knight = Knight::new(Color::Black, at(4, 4));
    let free = as_set(knight.moves(&Board::empty()));
    for y in 0..8 {
        for x in 0..8 {
            let board = Board::new(vec![pawn_on(Color::White, x, y)]);
            assert_eq!(as_set(knight.moves(&board)), free);
        }
    }
}

#[test]
fn pawn_steps_twice_from_home_row_only() {
    let board = Board::empty();
    assert_eq!(
        as_set(Pawn::new(Color::White, at(3, 1)).moves(&board)),
        squares(&[(3, 2), (3, 3)])
    );
    assert_eq!(
        as_set(Pawn::new(Color::White, at(3, 2)).moves(&board)),
        squares(&[(3, 3)])
    );
    assert_eq!(
        as_set(Pawn::new(Color::Black, at(3, 6)).moves(&board)),
        squares(&[(3, 5), (3, 4)])
    );
    assert_eq!(
        as_set(Pawn::new(Color::Black, at(3, 1)).moves(&board)),
        squares(&[(3, 0)])
    );
    assert_eq!(
        as_set(Pawn::new(Color::White, at(3, 6)).moves(&board)),
        squares(&[(3, 7)])
    );
}

#[test]
fn pawn_double_step_needs_both_squares_empty() {
    let pawn = Pawn::new(Color::White, at(4, 1));
    let near = Board::new(vec![pawn_on(Color::Black, 4, 2)]);
    assert_eq!(as_set(pawn.moves(&near)), squares(&[]));
    let far = Board::new(vec![pawn_on(Color::Black, 4, 3)]);
    assert_eq!(as_set(pawn.moves(&far)), squares(&[(4, 2)]));
}

#[test]
fn pawn_captures_on_both_diagonals_only_opponents() {
    let board = Board::new(vec![
        pawn_on(Color::White, 3, 5),
        pawn_on(Color::Black, 5, 5),
    ]);
    assert_eq!(
        as_set(Pawn::new(Color::Black, at(4, 6)).moves(&board)),
        squares(&[(4, 5), (4, 4), (3, 5)])
    );
    let board = Board::new(vec![
        pawn_on(Color::Black, 3, 3),
        pawn_on(Color::Black, 5, 3),
    ]);
    assert_eq!(
        as_set(Pawn::new(Color::White, at(4, 2)).moves(&board)),
        squares(&[(4, 3), (3, 3), (5, 3)])
    );
}

#[test]
fn pawn_on_the_last_rank_has_no_destination() {
    let board = Board::empty();
    assert_eq!(as_set(Pawn::new(Color::White, at(4, 7)).moves(&board)), squares(&[]));
    assert_eq!(as_set(Pawn::new(Color::Black, at(4, 0)).moves(&board)), squares(&[]));
}

#[test]
fn pawn_on_the_edge_file_captures_on_one_side() {
    let board = Board::new(vec![
        pawn_on(Color::Black, 1, 3),
        pawn_on(Color::Black, 7, 3),
    ]);
    assert_eq!(
        as_set(Pawn::new(Color::White, at(0, 2)).moves(&board)),
        squares(&[(0, 3), (1, 3)])
    );
}

#[test]
fn no_piece_moves_off_the_board() {
    let board = Board::empty();
    for y in 0..8 {
        for x in 0..8 {
            for color in [Color::Black, Color::White] {
                let pieces = [
                    AnyPiece::Pawn(Pawn::new(color, at(x, y))),
                    AnyPiece::Knight(Knight::new(color, at(x, y))),
                    AnyPiece::Bishop(Bishop::new(color, at(x, y))),
                    AnyPiece::Rook(Rook::new(color, at(x, y))),
                    AnyPiece::Queen(Queen::new(color, at(x, y))),
                    AnyPiece::King(King::new(color, at(x, y))),
                ];
                for piece in pieces {
                    for destination in as_set(piece.moves(&board)) {
                        assert!(destination.is_on_board());
                        assert_ne!(destination, at(x, y));
                    }
                }
            }
        }
    }
}

#[test]
fn piece_off_the_board_has_no_destination() {
    let board = Board::new(vec![pawn_on(Color::White, 4, 4)]);
    let nowhere = Position::new(8, 0);
    for color in [Color::Black, Color::White] {
        assert!(Pawn::new(color, nowhere).moves(&board).is_empty());
        assert!(Knight::new(color, nowhere).moves(&board).is_empty());
        assert!(Bishop::new(color, nowhere).moves(&board).is_empty());
        assert!(Rook::new(color, nowhere).moves(&board).is_empty());
        assert!(Queen::new(color, nowhere).moves(&board).is_empty());
        assert!(King::new(color, nowhere).moves(&board).is_empty());
    }
}

#[test]
fn piece_boxed_in_has_no_destination() {
    let board = Board::new(vec![
        pawn_on(Color::White, 0, 1),
        pawn_on(Color::White, 1, 0),
        pawn_on(Color::White, 1, 1),
    ]);
    assert!(King::new(Color::White, at(0, 0)).moves(&board).is_empty());
    assert!(Queen::new(Color::White, at(0, 0)).moves(&board).is_empty());
    assert!(Rook::new(Color::White, at(0, 0)).moves(&board).is_empty());
    assert!(Bishop::new(Color::White, at(0, 0)).moves(&board).is_empty());
}

#[test]
fn king_in_the_corner_has_three_destinations() {
    assert_eq!(
        as_set(King::new(Color::White, at(7, 7)).moves(&Board::empty())),
        squares(&[(6, 7), (6, 6), (7, 6)])
    );
}

#[test]
fn rook_on_an_empty_board_has_fourteen_destinations() {
    let rook = Rook::new(Color::Black, at(4, 4));
    let destinations = as_set(rook.moves(&Board::empty()));
    assert_eq!(destinations.len(), 14);
    for destination in destinations {
        match destination.to_xy() {
            XY::OnBoard(x, y) => assert!((x == 4) != (y == 4)),
            XY::OffBoard => panic!("a destination off the board"),
        }
    }
}

#[test]
fn queen_blocked_upwards_keeps_the_other_seven_rays() {
    let board = Board::new(vec![pawn_on(Color::Black, 4, 5)]);
    let from = at(4, 4);
    assert!(slide(&board, Color::Black, from, MoveDirection::Up).is_empty());
    for direction in [
        MoveDirection::Down,
        MoveDirection::Left,
        MoveDirection::Right,
        MoveDirection::UpRight,
        MoveDirection::UpLeft,
        MoveDirection::DownRight,
        MoveDirection::DownLeft,
    ] {
        assert_eq!(
            slide(&board, Color::Black, from, direction),
            from.stream(direction)
        );
    }
    assert_eq!(Queen::new(Color::Black, from).moves(&board).len(), 24);
}

#[test]
fn bishop_takes_and_goes_no_further() {
    let board = Board::new(vec![
        pawn_on(Color::White, 2, 6),
        pawn_on(Color::White, 6, 2),
    ]);
    let destinations = as_set(Bishop::new(Color::Black, at(4, 4)).moves(&board));
    assert!(destinations.contains(&at(2, 6)));
    assert!(destinations.contains(&at(6, 2)));
    assert!(!destinations.contains(&at(1, 7)));
    assert!(!destinations.contains(&at(7, 1)));
}

#[test]
fn slide_lists_the_nearest_square_first() {
    let board = Board::new(vec![
        pawn_on(Color::White, 4, 6),
        pawn_on(Color::Black, 1, 4),
    ]);
    assert_eq!(
        slide(&board, Color::Black, at(4, 4), MoveDirection::Up),
        vec![at(4, 5), at(4, 6)]
    );
    assert_eq!(
        slide(&board, Color::Black, at(4, 4), MoveDirection::Left),
        vec![at(3, 4), at(2, 4)]
    );
    assert_eq!(
        slide(&board, Color::White, at(4, 4), MoveDirection::Left),
        vec![at(3, 4), at(2, 4), at(1, 4)]
    );
    assert_eq!(
        slide(&board, Color::White, at(4, 4), MoveDirection::Up),
        vec![at(4, 5)]
    );
    assert_eq!(
        slide(&board, Color::White, at(7, 7), MoveDirection::UpRight),
        Vec::<Position>::new()
    );
}

#[test]
fn slide_stops_at_the_first_piece_of_several() {
    let board = Board::new(vec![
        pawn_on(Color::White, 6, 4),
        pawn_on(Color::Black, 5, 4),
        pawn_on(Color::White, 7, 4),
    ]);
    assert_eq!(
        slide(&board, Color::White, at(4, 4), MoveDirection::Right),
        vec![at(5, 4)]
    );
    assert_eq!(
        slide(&board, Color::Black, at(4, 4), MoveDirection::Right),
        Vec::<Position>::new()
    );
}

#[test]
fn any_piece_moves_as_the_piece_it_holds() {
    let board = Board::new(vec![pawn_on(Color::White, 5, 5), pawn_on(Color::Black, 3, 3)]);
    for color in [Color::Black, Color::White] {
        let from = at(4, 4);
        assert_eq!(
            as_set(AnyPiece::Pawn(Pawn::new(color, from)).moves(&board)),
            as_set(Pawn::new(color, from).moves(&board))
        );
        assert_eq!(
            as_set(AnyPiece::Knight(Knight::new(color, from)).moves(&board)),
            as_set(Knight::new(color, from).moves(&board))
        );
        assert_eq!(
            as_set(AnyPiece::Bishop(Bishop::new(color, from)).moves(&board)),
            as_set(Bishop::new(color, from).moves(&board))
        );
        assert_eq!(
            as_set(AnyPiece::Rook(Rook::new(color, from)).moves(&board)),
            as_set(Rook::new(color, from).moves(&board))
        );
        assert_eq!(
            as_set(AnyPiece::Queen(Queen::new(color, from)).moves(&board)),
            as_set(Queen::new(color, from).moves(&board))
        );
        assert_eq!(
            as_set(AnyPiece::King(King::new(color, from)).moves(&board)),
            as_set(King::new(color, from).moves(&board))
        );
    }
}

#[test]
fn pieces_tell_colour_and_square() {
    let from = at(2, 5);
    assert_eq!(Pawn::new(Color::White, from).color(), Color::White);
    assert_eq!(Pawn::new(Color::White, from).position(), from);
    assert_eq!(Knight::new(Color::Black, from).color(), Color::Black);
    assert_eq!(Knight::new(Color::Black, from).position(), from);
    assert_eq!(Bishop::new(Color::White, from).color(), Color::White);
    assert_eq!(Bishop::new(Color::White, from).position(), from);
    assert_eq!(Rook::new(Color::Black, from).color(), Color::Black);
    assert_eq!(Rook::new(Color::Black, from).position(), from);
    assert_eq!(Queen::new(Color::White, from).color(), Color::White);
    assert_eq!(Queen::new(Color::White, from).position(), from);
    assert_eq!(King::new(Color::Black, from).color(), Color::Black);
    assert_eq!(King::new(Color::Black, from).position(), from);
    let any = AnyPiece::Queen(Queen::new(Color::White, from));
    assert_eq!(any.color(), Color::White);
    assert_eq!(any.position(), from);
    assert_eq!(Color::White.opponent(), Color::Black);
    assert_eq!(Color::Black.opponent(), Color::White);
}

#[test]
fn destinations_are_few() {
    let board = Board::empty();
    let mut most = [0usize; 6];
    for y in 0..8 {
        for x in 0..8 {
            for color in [Color::Black, Color::White] {
                let from = at(x, y);
                let counts = [
                    Pawn::new(color, from).moves(&board).len(),
                    Knight::new(color, from).moves(&board).len(),
                    Bishop::new(color, from).moves(&board).len(),
                    Rook::new(color, from).moves(&board).len(),
                    Queen::new(color, from).moves(&board).len(),
                    King::new(color, from).moves(&board).len(),
                ];
                for kind in 0..6 {
                    most[kind] = most[kind].max(counts[kind]);
                }
                assert_eq!(counts[3], 14);
                assert_eq!(counts[4], counts[2] + counts[3]);
            }
        }
    }
    assert_eq!(most, [2, 8, 13, 14, 27, 8]);
}

#[test]
fn pawn_has_at_most_four_destinations() {
    let board = Board::new(vec![
        pawn_on(Color::Black, 3, 2),
        pawn_on(Color::Black, 5, 2),
    ]);
    assert_eq!(
        as_set(Pawn::new(Color::White, at(4, 1)).moves(&board)),
        squares(&[(4, 2), (4, 3), (3, 2), (5, 2)])
    );
}
