use oxono::board::{Board, Pieces, PiecesCount, Square, TotemStatus};
use oxono::position::Position;
use oxono::symbol::{Color, Symbol};

fn full_pieces() -> Pieces {
    Pieces {
        x_pink: PiecesCount(8),
        x_black: PiecesCount(8),
        o_pink: PiecesCount(8),
        o_black: PiecesCount(8),
    }
}

fn initial_board() -> Board {
    let mut squares = vec![Square::Empty; 36];
    squares[14] = Square::Totem(Symbol::X);
    squares[21] = Square::Totem(Symbol::O);
    Board { squares, pieces: full_pieces() }
}

fn as_sorted_pairs(moves: &[Position]) -> Vec<(usize, usize)> {
    let mut pairs: Vec<(usize, usize)> = moves.iter().map(|p| (p.x(), p.y())).collect();
    pairs.sort();
    pairs
}

#[test]
fn find_locates_the_totems() {
    let board = initial_board();
    let x = board.find(Square::Totem(Symbol::X)).unwrap();
    assert_eq!((x.x(), x.y()), (2, 2));
    let o = board.find(Square::Totem(Symbol::O)).unwrap();
    assert_eq!((o.x(), o.y()), (3, 3));
    assert!(board.find(Square::Piece(Symbol::X, Color::Pink)).is_none());
}

#[test]
fn free_totem_moves_slide_through_clear_runs() {
    let board = initial_board();
    let pos = Position::new(3, 3);
    assert!(matches!(board.totem_status(pos), TotemStatus::Free));
    let moves = board.totem_valid_moves(pos);
    let expected = [
        (4, 3),
        (5, 3),
        (2, 3),
        (1, 3),
        (0, 3),
        (3, 0),
        (3, 1),
        (3, 2),
        (3, 4),
        (3, 5),
    ];
    assert_eq!(moves.len(), expected.len());
    for (x, y) in expected {
        assert!(moves.contains(&Position::new(x as u8, y as u8)));
    }
    // A slide stops at the first obstruction: the X totem blocks the row.
    let from_x = board.totem_valid_moves(Position::new(2, 2));
    assert!(from_x.contains(&Position::new(2, 3)));
    assert!(from_x.contains(&Position::new(2, 5)));
    assert!(!from_x.contains(&Position::new(3, 3)));
}

#[test]
fn enclaved_totem_hops_to_first_empty_cell() {
    let mut squares = vec![Square::Empty; 36];
    squares[0] = Square::Totem(Symbol::O);
    squares[1] = Square::Piece(Symbol::X, Color::Pink);
    squares[6] = Square::Piece(Symbol::X, Color::Black);
    squares[35] = Square::Totem(Symbol::X);
    let board = Board { squares, pieces: full_pieces() };
    let pos = Position::new(0, 0);
    assert!(matches!(board.totem_status(pos), TotemStatus::Enclave));
    let moves = board.totem_valid_moves(pos);
    assert_eq!(as_sorted_pairs(&moves), vec![(0, 2), (2, 0)]);
}

#[test]
fn fully_enclaved_totem_teleports_anywhere_empty() {
    let mut squares = vec![Square::Empty; 36];
    squares[0] = Square::Totem(Symbol::O);
    for x in 1..6usize {
        squares[x] = Square::Piece(Symbol::X, Color::Pink);
    }
    for y in 1..6usize {
        squares[y * 6] = Square::Piece(Symbol::O, Color::Black);
    }
    squares[35] = Square::Totem(Symbol::X);
    let board = Board { squares, pieces: full_pieces() };
    let pos = Position::new(0, 0);
    assert!(matches!(board.totem_status(pos), TotemStatus::FullyEnclave));
    let moves = board.totem_valid_moves(pos);
    assert_eq!(moves.len(), 24);
    assert!(moves.contains(&Position::new(1, 1)));
    assert!(moves.contains(&Position::new(5, 4)));
    assert!(!moves.contains(&Position::new(0, 0)));
    assert!(!moves.contains(&Position::new(1, 0)));
    assert!(!moves.contains(&Position::new(5, 5)));
}

#[test]
fn mobility_queries_are_idempotent() {
    let board = initial_board();
    let pos = Position::new(3, 3);
    let first = board.totem_valid_moves(pos);
    let second = board.totem_valid_moves(pos);
    assert_eq!(as_sorted_pairs(&first), as_sorted_pairs(&second));
    let p_first = board.piece_valid_moves(Position::new(2, 3), Symbol::O);
    let p_second = board.piece_valid_moves(Position::new(2, 3), Symbol::O);
    assert_eq!(as_sorted_pairs(&p_first), as_sorted_pairs(&p_second));
}

#[test]
fn piece_moves_are_the_free_neighbors_and_vacated_cell() {
    let board = initial_board();
    // O totem stands at (3,3) and would move to (2,3): the empty
    // neighbors of (2,3) and the vacated (3,3) are legal; the X totem at
    // (2,2) is not.
    let moves = board.piece_valid_moves(Position::new(2, 3), Symbol::O);
    assert_eq!(as_sorted_pairs(&moves), vec![(1, 3), (2, 4), (3, 3)]);
    // The totem destination itself is never a placement.
    assert!(!moves.contains(&Position::new(2, 3)));
}

#[test]
fn boxed_in_piece_moves_fall_back_to_any_empty_cell() {
    let mut squares = vec![Square::Empty; 36];
    squares[1] = Square::Piece(Symbol::X, Color::Pink);
    squares[6] = Square::Piece(Symbol::O, Color::Black);
    squares[21] = Square::Totem(Symbol::O);
    squares[35] = Square::Totem(Symbol::X);
    let board = Board { squares, pieces: full_pieces() };
    // Every neighbor of (0,0) is occupied and the O totem is far away, so
    // the fallback offers every empty cell plus the vacated totem cell,
    // minus the destination itself.
    let moves = board.piece_valid_moves(Position::new(0, 0), Symbol::O);
    assert_eq!(moves.len(), 32);
    assert!(moves.contains(&Position::new(3, 3)));
    assert!(!moves.contains(&Position::new(0, 0)));
    assert!(!moves.contains(&Position::new(1, 0)));
    assert!(!moves.contains(&Position::new(5, 5)));
}

#[test]
fn wins_detects_shared_symbol_and_shared_color() {
    let mut squares = vec![Square::Empty; 36];
    squares[14] = Square::Totem(Symbol::X);
    squares[21] = Square::Totem(Symbol::O);
    // Row 0: four O pieces of mixed colors.
    squares[0] = Square::Piece(Symbol::O, Color::Pink);
    squares[1] = Square::Piece(Symbol::O, Color::Black);
    squares[2] = Square::Piece(Symbol::O, Color::Pink);
    squares[3] = Square::Piece(Symbol::O, Color::Black);
    // Column 5: four pink pieces of mixed symbols.
    squares[5] = Square::Piece(Symbol::X, Color::Pink);
    squares[11] = Square::Piece(Symbol::O, Color::Pink);
    squares[17] = Square::Piece(Symbol::X, Color::Pink);
    squares[23] = Square::Piece(Symbol::O, Color::Pink);
    let board = Board { squares, pieces: full_pieces() };
    let row = [
        Position::new(0, 0),
        Position::new(1, 0),
        Position::new(2, 0),
        Position::new(3, 0),
    ];
    assert!(board.wins(row));
    let column = [
        Position::new(5, 0),
        Position::new(5, 1),
        Position::new(5, 2),
        Position::new(5, 3),
    ];
    assert!(board.wins(column));
}

#[test]
fn wins_rejects_mixed_lines_and_non_pieces() {
    let mut squares = vec![Square::Empty; 36];
    squares[14] = Square::Totem(Symbol::X);
    squares[21] = Square::Totem(Symbol::O);
    // Row 0: four pieces sharing neither symbol nor color.
    squares[0] = Square::Piece(Symbol::O, Color::Pink);
    squares[1] = Square::Piece(Symbol::X, Color::Black);
    squares[2] = Square::Piece(Symbol::O, Color::Black);
    squares[3] = Square::Piece(Symbol::X, Color::Pink);
    // Row 5: three O pieces and one empty cell.
    squares[30] = Square::Piece(Symbol::O, Color::Pink);
    squares[31] = Square::Piece(Symbol::O, Color::Pink);
    squares[32] = Square::Piece(Symbol::O, Color::Pink);
    let board = Board { squares, pieces: full_pieces() };
    let row = [
        Position::new(0, 0),
        Position::new(1, 0),
        Position::new(2, 0),
        Position::new(3, 0),
    ];
    assert!(!board.wins(row));
    let incomplete = [
        Position::new(0, 5),
        Position::new(1, 5),
        Position::new(2, 5),
        Position::new(3, 5),
    ];
    assert!(!board.wins(incomplete));
    // A line through a totem is not a win either.
    let through_totem = [
        Position::new(2, 0),
        Position::new(2, 1),
        Position::new(2, 2),
        Position::new(2, 3),
    ];
    assert!(!board.wins(through_totem));
}

#[test]
fn ninth_take_fails_with_empty_stock() {
    let mut pieces = full_pieces();
    for _ in 0..8 {
        let taken = pieces.take(Symbol::X, Color::Pink);
        assert_eq!(taken, Some(Square::Piece(Symbol::X, Color::Pink)));
    }
    assert_eq!(pieces.take(Symbol::X, Color::Pink), None);
    assert_eq!(pieces.get(Symbol::X, Color::Pink), 0);
    assert!(!pieces.has_left(Symbol::X, Color::Pink));
    // The other stocks are untouched.
    assert_eq!(pieces.get(Symbol::X, Color::Black), 8);
    assert_eq!(pieces.get(Symbol::O, Color::Pink), 8);
    assert_eq!(pieces.get(Symbol::O, Color::Black), 8);
}

#[test]
fn no_more_pieces_requires_every_stock_empty() {
    let mut board = initial_board();
    assert!(!board.no_more_pieces());
    board.pieces = Pieces {
        x_pink: PiecesCount(0),
        x_black: PiecesCount(0),
        o_pink: PiecesCount(0),
        o_black: PiecesCount(1),
    };
    assert!(!board.no_more_pieces());
    board.pieces = Pieces {
        x_pink: PiecesCount(0),
        x_black: PiecesCount(0),
        o_pink: PiecesCount(0),
        o_black: PiecesCount(0),
    };
    assert!(board.no_more_pieces());
}

#[test]
fn square_emptiness() {
    assert!(Square::Empty.is_empty());
    assert!(!Square::Totem(Symbol::X).is_empty());
    assert!(!Square::Piece(Symbol::O, Color::Pink).is_empty());
}
