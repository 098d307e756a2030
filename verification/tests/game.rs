use oxono::board::{Board, Pieces, PiecesCount, Square};
use oxono::game::{Game, GameState};
use oxono::moves::MovesBuilderError;
use oxono::player::{Player, Players};
use oxono::position::Position;
use oxono::symbol::{Color, Symbol};

fn full_pieces() -> Pieces {
    Pieces {
        x_pink: PiecesCount(8),
        x_black: PiecesCount(8),
        o_pink: PiecesCount(8),
        o_black: PiecesCount(8),
    }
}

fn play(game: &mut Game, symbol: Symbol, totem: (u8, u8), piece: (u8, u8)) {
    let moves = game
        .moves_builder()
        .symbol(symbol)
        .unwrap()
        .totem_pos(totem)
        .unwrap()
        .piece_pos(piece)
        .unwrap();
    game.play(moves).unwrap();
}

#[test]
fn game_works() {
    let mut game = Game::default();
    assert_eq!(game.state(), &GameState::Started);
    assert_eq!(game.current_player().color(), Color::Pink);

    play(&mut game, Symbol::O, (2, 3), (1, 3));
    assert_eq!(game.current_player().color(), Color::Black);

    assert!(matches!(
        game.moves_builder()
            .symbol(Symbol::O)
            .unwrap()
            .totem_pos((2, 3)),
        Err(MovesBuilderError::InvalidTotemMove)
    ));
    assert_eq!(game.current_player().color(), Color::Black);

    play(&mut game, Symbol::O, (3, 3), (3, 2));
    assert_eq!(game.current_player().color(), Color::Pink);

    play(&mut game, Symbol::O, (2, 3), (2, 4));
    assert_eq!(game.current_player().color(), Color::Black);

    play(&mut game, Symbol::O, (3, 3), (3, 4));
    assert_eq!(game.current_player().color(), Color::Pink);

    play(&mut game, Symbol::O, (2, 3), (3, 3));
    assert_eq!(game.current_player().color(), Color::Black);

    play(&mut game, Symbol::O, (2, 1), (3, 1));
    assert_eq!(game.state(), &GameState::BlackWins);
}

#[test]
fn initial_match_configuration() {
    let game = Game::default();
    assert_eq!(game.state(), &GameState::Started);
    assert!(!game.state().is_over());
    assert_eq!(game.current_player().color(), Color::Pink);
    let board = game.board();
    for y in 0..6u8 {
        for x in 0..6u8 {
            let square = *board.get(Position::new(x, y));
            if x == 2 && y == 2 {
                assert_eq!(square, Square::Totem(Symbol::X));
            } else if x == 3 && y == 3 {
                assert_eq!(square, Square::Totem(Symbol::O));
            } else {
                assert_eq!(square, Square::Empty);
            }
        }
    }
    for symbol in [Symbol::X, Symbol::O] {
        for color in [Color::Pink, Color::Black] {
            assert_eq!(board.pieces().get(symbol, color), 8);
        }
    }
}

#[test]
fn completing_a_row_credits_the_mover() {
    let mut squares = vec![Square::Empty; 36];
    squares[14] = Square::Totem(Symbol::X);
    squares[21] = Square::Totem(Symbol::O);
    squares[0] = Square::Piece(Symbol::O, Color::Pink);
    squares[1] = Square::Piece(Symbol::O, Color::Black);
    squares[2] = Square::Piece(Symbol::O, Color::Pink);
    let mut game = Game {
        state: GameState::Started,
        board: Board {
            squares,
            pieces: Pieces {
                x_pink: PiecesCount(8),
                x_black: PiecesCount(8),
                o_pink: PiecesCount(6),
                o_black: PiecesCount(7),
            },
        },
        players: Players {
            first: Player { color: Color::Pink },
            second: Player { color: Color::Black },
        },
    };
    // Pink slides the O totem from (3,3) up to (3,1) and places next to it
    // at (3,0), completing four O pieces of mixed colors on row 0.
    play(&mut game, Symbol::O, (3, 1), (3, 0));
    assert_eq!(game.state(), &GameState::PinkWins);
    assert!(game.state().is_over());
    // The winner stays the active player once the match is over.
    assert_eq!(game.current_player().color(), Color::Pink);
}

#[test]
fn builder_rejects_out_of_board_coordinates() {
    let game = Game::default();
    assert!(matches!(
        game.moves_builder().symbol(Symbol::O).unwrap().totem_pos((9, 0)),
        Err(MovesBuilderError::OutOfBoard)
    ));
    assert!(matches!(
        game.moves_builder()
            .symbol(Symbol::O)
            .unwrap()
            .totem_pos((2, 3))
            .unwrap()
            .piece_pos((0, 6)),
        Err(MovesBuilderError::OutOfBoard)
    ));
}

#[test]
fn builder_rejects_invalid_piece_placement() {
    let game = Game::default();
    assert!(matches!(
        game.moves_builder()
            .symbol(Symbol::O)
            .unwrap()
            .totem_pos((2, 3))
            .unwrap()
            .piece_pos((5, 5)),
        Err(MovesBuilderError::InvalidPiecePlacement)
    ));
}

#[test]
fn builder_accepts_vacated_totem_cell_for_piece() {
    let mut game = Game::default();
    // The O totem leaves (3,3); the vacated cell itself is a legal
    // placement next to the destination (2,3).
    play(&mut game, Symbol::O, (2, 3), (3, 3));
    assert_eq!(*game.board().get(Position::new(2, 3)), Square::Totem(Symbol::O));
    assert_eq!(*game.board().get(Position::new(3, 3)), Square::Piece(Symbol::O, Color::Pink));
}

#[test]
fn builder_reports_no_piece_left() {
    let mut squares = vec![Square::Empty; 36];
    squares[14] = Square::Totem(Symbol::X);
    squares[21] = Square::Totem(Symbol::O);
    let game = Game {
        state: GameState::Started,
        board: Board {
            squares,
            pieces: Pieces {
                x_pink: PiecesCount(8),
                x_black: PiecesCount(8),
                o_pink: PiecesCount(0),
                o_black: PiecesCount(8),
            },
        },
        players: Players {
            first: Player { color: Color::Pink },
            second: Player { color: Color::Black },
        },
    };
    assert!(matches!(
        game.moves_builder().symbol(Symbol::O),
        Err(MovesBuilderError::NoPieceLeft)
    ));
    // The other symbol still has stock.
    assert!(game.moves_builder().symbol(Symbol::X).is_ok());
}

#[test]
fn builder_reports_totem_not_found() {
    let mut squares = vec![Square::Empty; 36];
    squares[14] = Square::Totem(Symbol::X);
    let game = Game {
        state: GameState::Started,
        board: Board { squares, pieces: full_pieces() },
        players: Players {
            first: Player { color: Color::Pink },
            second: Player { color: Color::Black },
        },
    };
    assert!(matches!(
        game.moves_builder().symbol(Symbol::O),
        Err(MovesBuilderError::TotemNotFound)
    ));
}

#[test]
fn stale_move_fails_with_wrong_totem_position() {
    let mut game = Game::default();
    let stale = game
        .moves_builder()
        .symbol(Symbol::O)
        .unwrap()
        .totem_pos((2, 3))
        .unwrap()
        .piece_pos((1, 3))
        .unwrap();
    // Another O move is played first, so the totem leaves (3,3).
    play(&mut game, Symbol::O, (3, 2), (3, 3));
    assert!(matches!(
        game.play(stale),
        Err(oxono::board::MoveApplyError::WrongTotemPosition)
    ));
    // The failed application left the board alone.
    assert_eq!(*game.board().get(Position::new(3, 2)), Square::Totem(Symbol::O));
}

#[test]
fn stale_move_fails_with_not_empty() {
    let mut game = Game::default();
    let stale = game
        .moves_builder()
        .symbol(Symbol::O)
        .unwrap()
        .totem_pos((2, 3))
        .unwrap()
        .piece_pos((1, 3))
        .unwrap();
    // The X totem walks over and a piece fills (1,3); the O totem itself
    // never moves, so only the piece destination of the stale move is bad.
    play(&mut game, Symbol::X, (1, 2), (1, 3));
    assert!(matches!(
        game.play(stale),
        Err(oxono::board::MoveApplyError::NotEmpty)
    ));
}

#[test]
fn apply_reports_no_piece_left_for_exhausted_player() {
    let mut squares = vec![Square::Empty; 36];
    squares[14] = Square::Totem(Symbol::X);
    squares[21] = Square::Totem(Symbol::O);
    let mut board = Board {
        squares,
        pieces: Pieces {
            x_pink: PiecesCount(8),
            x_black: PiecesCount(8),
            o_pink: PiecesCount(0),
            o_black: PiecesCount(8),
        },
    };
    // Black builds a perfectly valid O move, but it is applied on behalf
    // of pink, whose O stock is exhausted.
    let black = Player { color: Color::Black };
    let moves = oxono::moves::Moves::builder(&board, &black)
        .symbol(Symbol::O)
        .unwrap()
        .totem_pos((2, 3))
        .unwrap()
        .piece_pos((1, 3))
        .unwrap();
    let pink = Player { color: Color::Pink };
    assert!(matches!(
        board.apply(moves, &pink),
        Err(oxono::board::MoveApplyError::NoPieceLeft)
    ));
    // The totem relocation was already committed when placement failed.
    assert_eq!(*board.get(Position::new(2, 3)), Square::Totem(Symbol::O));
    assert_eq!(*board.get(Position::new(3, 3)), Square::Empty);
}

#[test]
fn draw_when_every_stock_runs_out() {
    let mut squares = vec![Square::Empty; 36];
    squares[14] = Square::Totem(Symbol::X);
    squares[21] = Square::Totem(Symbol::O);
    // One lonely piece short of exhaustion; the placed pieces share no
    // line, so only the draw rule can end the match.
    squares[0] = Square::Piece(Symbol::X, Color::Pink);
    let mut game = Game {
        state: GameState::Started,
        board: Board {
            squares,
            pieces: Pieces {
                x_pink: PiecesCount(0),
                x_black: PiecesCount(0),
                o_pink: PiecesCount(0),
                o_black: PiecesCount(1),
            },
        },
        players: Players {
            first: Player { color: Color::Black },
            second: Player { color: Color::Pink },
        },
    };
    play(&mut game, Symbol::O, (2, 3), (1, 3));
    assert_eq!(game.state(), &GameState::Draw);
    assert!(game.state().is_over());
}

#[test]
fn mixed_line_does_not_end_the_match() {
    let mut squares = vec![Square::Empty; 36];
    squares[14] = Square::Totem(Symbol::X);
    squares[21] = Square::Totem(Symbol::O);
    squares[0] = Square::Piece(Symbol::O, Color::Pink);
    squares[1] = Square::Piece(Symbol::X, Color::Black);
    squares[2] = Square::Piece(Symbol::O, Color::Black);
    let mut game = Game {
        state: GameState::Started,
        board: Board {
            squares,
            pieces: Pieces {
                x_pink: PiecesCount(8),
                x_black: PiecesCount(7),
                o_pink: PiecesCount(7),
                o_black: PiecesCount(7),
            },
        },
        players: Players {
            first: Player { color: Color::Pink },
            second: Player { color: Color::Black },
        },
    };
    // The new piece completes four pieces on row 0 sharing neither a
    // symbol nor a color, so nobody wins and the turn rotates.
    play(&mut game, Symbol::O, (3, 1), (3, 0));
    assert_eq!(game.state(), &GameState::Started);
    assert_eq!(game.current_player().color(), Color::Black);
}
