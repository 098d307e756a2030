use vstd::prelude::*;
use core::marker::PhantomData;
use crate::board::{Board, Square};
use crate::player::Player;
use crate::position::Position;
use crate::symbol::Symbol;

verus! {

/// The fields of a fully validated move, laid bare for application.
pub struct MovesData {
    pub symbol: Symbol,
    pub totem_old_pos: Position,
    pub totem_new_pos: Position,
    pub piece_pos: Position,
}

/// A fully validated move: the symbol whose totem moves, the totem's
/// position before and after, and the cell receiving the new piece. A value
/// of this type can only be produced by the staged builder, so its mere
/// existence certifies that every field was validated, in order, against the
/// board the builder was created for.
pub struct Moves {
    symbol: Symbol,
    totem_old_pos: Position,
    totem_new_pos: Position,
    piece_pos: Position,
}

impl Moves {
    /// The symbol whose totem moves.
    pub closed spec fn spec_symbol(self) -> Symbol {
        self.symbol
    }

    /// The totem's position before the move.
    pub closed spec fn spec_totem_old_pos(self) -> Position {
        self.totem_old_pos
    }

    /// The totem's destination.
    pub closed spec fn spec_totem_new_pos(self) -> Position {
        self.totem_new_pos
    }

    /// The cell receiving the new piece.
    pub closed spec fn spec_piece_pos(self) -> Position {
        self.piece_pos
    }

    /// All recorded positions lie on the board.
    pub open spec fn wf(self) -> bool {
        &&& self.spec_totem_old_pos().wf()
        &&& self.spec_totem_new_pos().wf()
        &&& self.spec_piece_pos().wf()
    }

    /// Releases the move's fields.
    pub fn into_data(self) -> (d: MovesData)
        ensures
            d.symbol == self.spec_symbol(),
            d.totem_old_pos == self.spec_totem_old_pos(),
            d.totem_new_pos == self.spec_totem_new_pos(),
            d.piece_pos == self.spec_piece_pos(),
    {
        let Moves { symbol, totem_old_pos, totem_new_pos, piece_pos } = self;
        MovesData { symbol, totem_old_pos, totem_new_pos, piece_pos }
    }
}

/// Why a staged move construction was rejected; each variant identifies the
/// stage or input at fault, and the caller may choose again at that stage.
#[derive(Clone, Copy, Debug, PartialEq, Eq, Structural)]
pub enum MovesBuilderError {
    TotemNotFound,
    OutOfBoard,
    NoPieceLeft,
    InvalidTotemMove,
    InvalidPiecePlacement,
}

/// What the builder has recorded so far.
#[derive(Clone, Copy, Debug, PartialEq, Eq, Structural)]
pub enum MovesBuilderStateData {
    Init,
    WithSymbol { symbol: Symbol, totem_old_pos: Position },
    WithTotem { symbol: Symbol, totem_old_pos: Position, totem_new_pos: Position },
}

/// Marker for the builder stage awaiting a symbol.
pub struct MovesBuilderStateInit;

/// Marker for the builder stage awaiting a totem destination.
pub struct MovesBuilderStateSymbol;

/// Marker for the builder stage awaiting a piece destination.
pub struct MovesBuilderStateTotemPos;

/// The closed set of builder stages.
pub trait MoveBuilderState {

}

impl MoveBuilderState for MovesBuilderStateInit {

}

impl MoveBuilderState for MovesBuilderStateSymbol {

}

impl MoveBuilderState for MovesBuilderStateTotemPos {

}

/// The staged move builder: each stage validates one choice against the
/// board it was created for and consumes itself, so a `Moves` value can
/// only come out of the final stage with every field validated in order.
pub struct MovesBuilder<'b, 'p, T: MoveBuilderState> {
    board: &'b Board,
    player: &'p Player,
    data: MovesBuilderStateData,
    marker: PhantomData<T>,
}

/// The entry stage of the builder.
pub type MovesBuilderInit<'b, 'p> = MovesBuilder<'b, 'p, MovesBuilderStateInit>;

impl<'b, 'p, T: MoveBuilderState> MovesBuilder<'b, 'p, T> {
    /// The board every stage validates against.
    pub closed spec fn spec_board(self) -> Board {
        *self.board
    }

    /// The acting player.
    pub closed spec fn spec_player(self) -> Player {
        *self.player
    }

    /// What has been recorded so far.
    pub closed spec fn spec_data(self) -> MovesBuilderStateData {
        self.data
    }

    /// After the symbol stage: the acting player has stock for the symbol
    /// and the recorded cell is where that symbol's totem stands.
    pub open spec fn wf_symbol_stage(self) -> bool {
        &&& self.spec_board().wf()
        &&& self.spec_data() matches MovesBuilderStateData::WithSymbol { symbol, totem_old_pos }
        &&& self.spec_data()->WithSymbol_totem_old_pos == self.spec_board().spec_totem_pos(
            self.spec_data()->WithSymbol_symbol,
        )
        &&& self.spec_board().totem_at(
            self.spec_data()->WithSymbol_symbol,
            self.spec_data()->WithSymbol_totem_old_pos,
        )
        &&& self.spec_board().pieces.spec_get(
            self.spec_data()->WithSymbol_symbol,
            self.spec_player().color,
        ) >= 1
    }

    /// After the totem stage: additionally, the recorded destination is a
    /// legal totem move from the recorded origin.
    pub open spec fn wf_totem_stage(self) -> bool {
        &&& self.spec_board().wf()
        &&& self.spec_data() matches MovesBuilderStateData::WithTotem {
            symbol,
            totem_old_pos,
            totem_new_pos,
        }
        &&& self.spec_data()->WithTotem_totem_old_pos == self.spec_board().spec_totem_pos(
            self.spec_data()->WithTotem_symbol,
        )
        &&& self.spec_board().totem_at(
            self.spec_data()->WithTotem_symbol,
            self.spec_data()->WithTotem_totem_old_pos,
        )
        &&& self.spec_board().pieces.spec_get(
            self.spec_data()->WithTotem_symbol,
            self.spec_player().color,
        ) >= 1
        &&& self.spec_board().totem_move_ok(
            self.spec_data()->WithTotem_totem_old_pos,
            self.spec_data()->WithTotem_totem_new_pos,
        )
        &&& self.spec_data()->WithTotem_totem_new_pos.wf()
    }
}

/// Whether `v` holds the position `p`.
fn contains_pos(v: &Vec<Position>, p: Position) -> (r: bool)
    ensures
        r == v@.contains(p),
{
    let mut k: usize = 0;
    while k < v.len()
        invariant
            k <= v@.len(),
            forall|j: int| 0 <= j < k ==> v@[j] != p,
        decreases v@.len() - k,
    {
        if v[k] == p {
            proof {
                assert(v@[k as int] == p);
            }
            return true;
        }
        k = k + 1;
    }
    false
}

impl Moves {
    /// Creates a builder that constructs a valid move on the given board
    /// for the given player.
    pub fn builder<'b, 'p>(board: &'b Board, player: &'p Player) -> (r: MovesBuilder<
        'b,
        'p,
        MovesBuilderStateInit,
    >)
        ensures
            r.spec_board() == *board,
            r.spec_player() == *player,
            r.spec_data() is Init,
    {
        MovesBuilder { board, player, data: MovesBuilderStateData::Init, marker: PhantomData }
    }
}

impl<'b, 'p> MovesBuilder<'b, 'p, MovesBuilderStateInit> {
    /// Records the symbol to move. Fails with `NoPieceLeft` when the acting
    /// player has no stock of that symbol; on a well-formed board the totem
    /// is always found, and its current cell is recorded.
    pub fn symbol(self, symbol: Symbol) -> (r: Result<
        MovesBuilder<'b, 'p, MovesBuilderStateSymbol>,
        MovesBuilderError,
    >)
        requires
            self.spec_board().wf(),
        ensures
            self.spec_board().pieces.spec_get(symbol, self.spec_player().color) < 1 ==> r == Err::<
                MovesBuilder<'b, 'p, MovesBuilderStateSymbol>,
                MovesBuilderError,
            >(MovesBuilderError::NoPieceLeft),
            self.spec_board().pieces.spec_get(symbol, self.spec_player().color) >= 1 ==> {
                &&& r matches Ok(b2)
                &&& b2.spec_board() == self.spec_board()
                &&& b2.spec_player() == self.spec_player()
                &&& b2.spec_data() == (MovesBuilderStateData::WithSymbol {
                    symbol,
                    totem_old_pos: self.spec_board().spec_totem_pos(symbol),
                })
                &&& b2.wf_symbol_stage()
            },
    {
        if !self.board.has_left_piece(symbol, self.player.color()) {
            return Err(MovesBuilderError::NoPieceLeft);
        }
        let totem_old_pos = match self.board.find(Square::Totem(symbol)) {
            Some(p) => p,
            None => {
                proof {
                    assert(self.spec_board().totem_unique(symbol)) by {
                        match symbol {
                            Symbol::X => {},
                            Symbol::O => {},
                        }
                    }
                    let w = choose|p: Position| self.spec_board().totem_at(symbol, p);
                    assert(self.spec_board().totem_at(symbol, w));
                    assert(false);
                }
                return Err(MovesBuilderError::TotemNotFound);
            },
        };
        proof {
            assert(self.spec_board().totem_unique(symbol)) by {
                match symbol {
                    Symbol::X => {},
                    Symbol::O => {},
                }
            }
            assert(self.spec_board().totem_at(symbol, totem_old_pos));
            let c = self.spec_board().spec_totem_pos(symbol);
            assert(self.spec_board().totem_at(symbol, c));
            assert(totem_old_pos == c);
        }
        Ok(
            MovesBuilder {
                board: self.board,
                player: self.player,
                data: MovesBuilderStateData::WithSymbol { symbol, totem_old_pos },
                marker: PhantomData,
            },
        )
    }
}

impl<'b, 'p> MovesBuilder<'b, 'p, MovesBuilderStateSymbol> {
    /// Records the totem destination, given as `(x, y)`. Fails with
    /// `OutOfBoard` for coordinates outside the grid and with
    /// `InvalidTotemMove` for a destination the mobility rules reject.
    pub fn totem_pos(self, totem_new_pos: (u8, u8)) -> (r: Result<
        MovesBuilder<'b, 'p, MovesBuilderStateTotemPos>,
        MovesBuilderError,
    >)
        requires
            self.wf_symbol_stage(),
        ensures
            !(totem_new_pos.0 < 6 && totem_new_pos.1 < 6) ==> r == Err::<
                MovesBuilder<'b, 'p, MovesBuilderStateTotemPos>,
                MovesBuilderError,
            >(MovesBuilderError::OutOfBoard),
            totem_new_pos.0 < 6 && totem_new_pos.1 < 6 && !self.spec_board().totem_move_ok(
                self.spec_data()->WithSymbol_totem_old_pos,
                (Position { x: totem_new_pos.0, y: totem_new_pos.1 }),
            ) ==> r == Err::<
                MovesBuilder<'b, 'p, MovesBuilderStateTotemPos>,
                MovesBuilderError,
            >(MovesBuilderError::InvalidTotemMove),
            totem_new_pos.0 < 6 && totem_new_pos.1 < 6 && self.spec_board().totem_move_ok(
                self.spec_data()->WithSymbol_totem_old_pos,
                (Position { x: totem_new_pos.0, y: totem_new_pos.1 }),
            ) ==> {
                &&& r matches Ok(b2)
                &&& b2.spec_board() == self.spec_board()
                &&& b2.spec_player() == self.spec_player()
                &&& b2.spec_data() == (MovesBuilderStateData::WithTotem {
                    symbol: self.spec_data()->WithSymbol_symbol,
                    totem_old_pos: self.spec_data()->WithSymbol_totem_old_pos,
                    totem_new_pos: Position { x: totem_new_pos.0, y: totem_new_pos.1 },
                })
                &&& b2.wf_totem_stage()
            },
    {
        let (x, y) = totem_new_pos;
        let np = match Position::try_new(x, y) {
            Some(p) => p,
            None => {
                return Err(MovesBuilderError::OutOfBoard);
            },
        };
        let (symbol, totem_old_pos) = match self.data {
            MovesBuilderStateData::WithSymbol { symbol, totem_old_pos } => (symbol, totem_old_pos),
            _ => {
                proof {
                    assert(false);
                }
                vstd::pervasive::unreached()
            },
        };
        let valid = self.board.totem_valid_moves(totem_old_pos);
        if !contains_pos(&valid, np) {
            return Err(MovesBuilderError::InvalidTotemMove);
        }
        Ok(
            MovesBuilder {
                board: self.board,
                player: self.player,
                data: MovesBuilderStateData::WithTotem {
                    symbol,
                    totem_old_pos,
                    totem_new_pos: np,
                },
                marker: PhantomData,
            },
        )
    }
}

impl<'b, 'p> MovesBuilder<'b, 'p, MovesBuilderStateTotemPos> {
    /// Records the piece destination, given as `(x, y)`, and yields the
    /// finished move. Fails with `OutOfBoard` for coordinates outside the
    /// grid and with `InvalidPiecePlacement` for a cell the placement rules
    /// reject.
    pub fn piece_pos(self, piece_pos: (u8, u8)) -> (r: Result<Moves, MovesBuilderError>)
        requires
            self.wf_totem_stage(),
        ensures
            !(piece_pos.0 < 6 && piece_pos.1 < 6) ==> r == Err::<Moves, MovesBuilderError>(
                MovesBuilderError::OutOfBoard,
            ),
            piece_pos.0 < 6 && piece_pos.1 < 6 && !self.spec_board().piece_move_ok(
                self.spec_data()->WithTotem_totem_new_pos,
                self.spec_data()->WithTotem_symbol,
                (Position { x: piece_pos.0, y: piece_pos.1 }),
            ) ==> r == Err::<Moves, MovesBuilderError>(MovesBuilderError::InvalidPiecePlacement),
            piece_pos.0 < 6 && piece_pos.1 < 6 && self.spec_board().piece_move_ok(
                self.spec_data()->WithTotem_totem_new_pos,
                self.spec_data()->WithTotem_symbol,
                (Position { x: piece_pos.0, y: piece_pos.1 }),
            ) ==> {
                &&& r matches Ok(m)
                &&& m.spec_symbol() == self.spec_data()->WithTotem_symbol
                &&& m.spec_totem_old_pos() == self.spec_data()->WithTotem_totem_old_pos
                &&& m.spec_totem_new_pos() == self.spec_data()->WithTotem_totem_new_pos
                &&& m.spec_piece_pos() == (Position { x: piece_pos.0, y: piece_pos.1 })
                &&& m.wf()
                &&& self.spec_board().totem_at(m.spec_symbol(), m.spec_totem_old_pos())
                &&& m.spec_totem_old_pos() == self.spec_board().spec_totem_pos(m.spec_symbol())
                &&& self.spec_board().pieces.spec_get(
                    m.spec_symbol(),
                    self.spec_player().color,
                ) >= 1
                &&& self.spec_board().totem_move_ok(
                    m.spec_totem_old_pos(),
                    m.spec_totem_new_pos(),
                )
                &&& self.spec_board().piece_move_ok(
                    m.spec_totem_new_pos(),
                    m.spec_symbol(),
                    m.spec_piece_pos(),
                )
            },
    {
        let (x, y) = piece_pos;
        let pp = match Position::try_new(x, y) {
            Some(p) => p,
            None => {
                return Err(MovesBuilderError::OutOfBoard);
            },
        };
        let (symbol, totem_old_pos, totem_new_pos) = match self.data {
            MovesBuilderStateData::WithTotem { symbol, totem_old_pos, totem_new_pos } => (
                symbol,
                totem_old_pos,
                totem_new_pos,
            ),
            _ => {
                proof {
                    assert(false);
                }
                vstd::pervasive::unreached()
            },
        };
        let valid = self.board.piece_valid_moves(totem_new_pos, symbol);
        if !contains_pos(&valid, pp) {
            return Err(MovesBuilderError::InvalidPiecePlacement);
        }
        Ok(Moves { symbol, totem_old_pos, totem_new_pos, piece_pos: pp })
    }
}

} // verus!
