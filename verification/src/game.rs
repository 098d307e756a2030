use vstd::prelude::*;
use crate::board::{Board, MoveApplyError, Pieces, Square};
use crate::moves::{Moves, MovesBuilderInit};
use crate::player::{Player, Players};
use crate::position::{group_seq, lemma_group_cells_wf, Position};
use crate::symbol::{Color, Symbol};

verus! {

/// Where the match stands. `Started` is the only state that accepts
/// further moves; the three terminal states are absorbing.
#[derive(Clone, Copy, Debug, PartialEq, Eq, Structural)]
pub enum GameState {
    Started,
    PinkWins,
    BlackWins,
    Draw,
}

impl GameState {
    /// Whether the match has reached a terminal state.
    pub fn is_over(&self) -> (r: bool)
        ensures
            r == !(self is Started),
    {
        !matches!(self, GameState::Started)
    }
}

impl Default for GameState {
    /// A match starts in `Started`.
    fn default() -> (r: GameState)
        ensures
            r is Started,
    {
        GameState::Started
    }
}

/// The terminal state crediting a win to `c`.
pub open spec fn win_state(c: Color) -> GameState {
    match c {
        Color::Pink => GameState::PinkWins,
        Color::Black => GameState::BlackWins,
    }
}

/// Some four-in-line window of the board is a winning line.
pub open spec fn board_has_win(b: Board) -> bool {
    exists|i: int| 0 <= i < 36 && b.spec_wins(#[trigger] group_seq(i))
}

/// Every piece stock is exhausted.
pub open spec fn all_exhausted(b: Board) -> bool {
    forall|s: Symbol, c: Color| b.pieces.spec_get(s, c) == 0
}

/// The state reached after `mover` completes a move on board `b`:
/// exhaustion of every stock draws the match (even over a simultaneous
/// win, preserving the order the checks run in), a winning line credits
/// the mover, and otherwise the match goes on.
pub open spec fn next_state(b: Board, mover: Color) -> GameState {
    if all_exhausted(b) {
        GameState::Draw
    } else if board_has_win(b) {
        win_state(mover)
    } else {
        GameState::Started
    }
}

/// A match: the current state, the board, and the two players in turn
/// order.
#[derive(Debug)]
pub struct Game {
    pub state: GameState,
    pub board: Board,
    pub players: Players,
}

impl Game {
    /// The match invariant: a well-formed board and two players of
    /// distinct colors.
    pub open spec fn wf(self) -> bool {
        &&& self.board.wf()
        &&& self.players.first.color != self.players.second.color
    }

    /// Recomputes the terminal state after an applied move: a winning
    /// window credits the active player, then exhausted stocks draw the
    /// match; otherwise the state is left alone.
    fn update_state(&mut self)
        requires
            old(self).board.squares@.len() == 36,
            old(self).board.pieces.wf(),
        ensures
            final(self).board == old(self).board,
            final(self).players == old(self).players,
            all_exhausted(old(self).board) ==> final(self).state is Draw,
            !all_exhausted(old(self).board) && board_has_win(old(self).board) ==> final(self).state
                == win_state(old(self).players.first.color),
            !all_exhausted(old(self).board) && !board_has_win(old(self).board)
                ==> final(self).state == old(self).state,
    {
        let state_if_wins = match self.players.current().color() {
            Color::Pink => GameState::PinkWins,
            Color::Black => GameState::BlackWins,
        };
        let groups = Position::four_latteral_groups();
        let mut won = false;
        let mut k: usize = 0;
        while k < 36
            invariant
                self.board.squares@.len() == 36,
                groups@.len() == 36,
                forall|i: int| 0 <= i < 36 ==> #[trigger] groups@[i]@ == group_seq(i),
                k <= 36,
                !won ==> forall|i: int| 0 <= i < k ==> !self.board.spec_wins(
                    #[trigger] group_seq(i),
                ),
                won ==> board_has_win(self.board),
            decreases 36 - k,
        {
            let g = groups[k];
            proof {
                lemma_group_cells_wf(k as int);
                assert(forall|j: int| 0 <= j < 4 ==> g@[j] == group_seq(k as int)[j]);
            }
            if self.board.wins(g) {
                won = true;
            }
            k = k + 1;
        }
        if won {
            self.state = state_if_wins;
        }
        if self.board.no_more_pieces() {
            self.state = GameState::Draw;
        }
    }

    /// The current state of the match.
    pub fn state(&self) -> (r: &GameState)
        ensures
            *r == self.state,
    {
        &self.state
    }

    /// The active player.
    pub fn current_player(&self) -> (r: &Player)
        ensures
            *r == self.players.first,
    {
        self.players.current()
    }

    /// The current board.
    pub fn board(&self) -> (r: &Board)
        ensures
            *r == self.board,
    {
        &self.board
    }

    /// A fresh move builder for the active player on the current board.
    pub fn moves_builder(&self) -> (r: MovesBuilderInit<'_, '_>)
        ensures
            r.spec_board() == self.board,
            r.spec_player() == self.players.first,
            r.spec_data() is Init,
    {
        Moves::builder(&self.board, self.players.current())
    }

    /// Plays a fully built move: applies it to the board, recomputes the
    /// terminal state, and rotates the active player while the match goes
    /// on. A move application error is propagated and leaves state and
    /// players alone. The match must not already be over.
    pub fn play(&mut self, moves: Moves) -> (r: Result<(), MoveApplyError>)
        requires
            old(self).wf(),
            old(self).state is Started,
            moves.wf(),
        ensures
            final(self).wf(),
            ({
                let b0 = old(self).board;
                let mover = old(self).players.first.color;
                let sym = moves.spec_symbol();
                let po = moves.spec_totem_old_pos();
                let pn = moves.spec_totem_new_pos();
                let pp = moves.spec_piece_pos();
                let s1 = b0.squares@.update(po.idx(), b0.at(pn)).update(pn.idx(), b0.at(po));
                if b0.at(po) != Square::Totem(sym) {
                    r == Err::<(), MoveApplyError>(MoveApplyError::WrongTotemPosition) && *final(self) == *old(self)
                } else if !(s1[pp.idx()] is Empty) {
                    &&& r == Err::<(), MoveApplyError>(MoveApplyError::NotEmpty)
                    &&& final(self).board.squares@ == s1
                    &&& final(self).board.pieces == b0.pieces
                    &&& final(self).state == old(self).state
                    &&& final(self).players == old(self).players
                } else if b0.pieces.spec_get(sym, mover) < 1 {
                    &&& r == Err::<(), MoveApplyError>(MoveApplyError::NoPieceLeft)
                    &&& final(self).board.squares@ == s1
                    &&& final(self).board.pieces == b0.pieces
                    &&& final(self).state == old(self).state
                    &&& final(self).players == old(self).players
                } else {
                    &&& r is Ok
                    &&& final(self).board.squares@ == s1.update(
                        pp.idx(),
                        Square::Piece(sym, mover),
                    )
                    &&& final(self).board.pieces.spec_get(sym, mover) == b0.pieces.spec_get(
                        sym,
                        mover,
                    ) - 1
                    &&& forall|s2: Symbol, c2: Color|
                        !(s2 == sym && c2 == mover) ==> final(self).board.pieces.spec_get(s2, c2)
                            == b0.pieces.spec_get(s2, c2)
                    &&& final(self).state == next_state(final(self).board, mover)
                    &&& (final(self).state is Started ==> final(self).players.first
                        == old(self).players.second && final(self).players.second
                        == old(self).players.first)
                    &&& (!(final(self).state is Started)
                        ==> final(self).players == old(self).players)
                }
            }),
    {
        let player = *self.players.current();
        let res = self.board.apply(moves, &player);
        match res {
            Err(e) => Err(e),
            Ok(()) => {
                self.update_state();
                if !self.state.is_over() {
                    self.players.turn();
                }
                Ok(())
            },
        }
    }
}

impl Default for Game {
    /// A fresh match: initial board, full stocks, state `Started`, pink to
    /// move first.
    fn default() -> (r: Game)
        ensures
            r.wf(),
            r.state is Started,
            r.board.squares@ == crate::board::initial_squares(),
            r.board.pieces == Pieces::initial(),
            r.players.first.color == Color::Pink,
            r.players.second.color == Color::Black,
    {
        Game { state: GameState::Started, board: Board::default(), players: Players::default() }
    }
}

} // verus!
