use vstd::prelude::*;
use crate::moves::Moves;
use crate::player::Player;
use crate::position::{lemma_idx_injective, Position};
use crate::symbol::{Color, Symbol};

verus! {

/// The content of one board cell. Exactly one `Square` value per cell at all
/// times: a totem, a placed piece, or nothing.
#[derive(Clone, Copy, Debug, PartialEq, Eq, Structural)]
pub enum Square {
    Totem(Symbol),
    Piece(Symbol, Color),
    Empty,
}

impl Square {
    /// Whether the cell holds neither a totem nor a piece.
    pub fn is_empty(&self) -> (r: bool)
        ensures
            r == (self is Empty),
    {
        matches!(self, Square::Empty)
    }
}

/// The symbol of a piece, or `None` when the square is not a piece.
pub open spec fn piece_symbol(sq: Square) -> Option<Symbol> {
    match sq {
        Square::Piece(s, _) => Some(s),
        _ => None,
    }
}

/// The color of a piece, or `None` when the square is not a piece.
pub open spec fn piece_color(sq: Square) -> Option<Color> {
    match sq {
        Square::Piece(_, c) => Some(c),
        _ => None,
    }
}

/// How many squares of `s` equal `t`.
pub open spec fn count_sq(s: Seq<Square>, t: Square) -> int
    decreases s.len(),
{
    if s.len() == 0 {
        0
    } else {
        count_sq(s.drop_last(), t) + (if s.last() == t {
            1int
        } else {
            0int
        })
    }
}

/// Updating one cell changes the count of `t` by the difference between the
/// old and the new content.
pub proof fn lemma_count_update(s: Seq<Square>, i: int, v: Square, t: Square)
    requires
        0 <= i < s.len(),
    ensures
        count_sq(s.update(i, v), t) == count_sq(s, t) - (if s[i] == t {
            1int
        } else {
            0int
        }) + (if v == t {
            1int
        } else {
            0int
        }),
    decreases s.len(),
{
    let s2 = s.update(i, v);
    if i == s.len() - 1 {
        assert(s2.drop_last() =~= s.drop_last());
    } else {
        lemma_count_update(s.drop_last(), i, v, t);
        assert(s2.drop_last() =~= s.drop_last().update(i, v));
    }
}

/// A sequence without any occurrence of `t` counts zero.
pub proof fn lemma_count_absent(s: Seq<Square>, t: Square)
    requires
        forall|j: int| 0 <= j < s.len() ==> s[j] != t,
    ensures
        count_sq(s, t) == 0,
    decreases s.len(),
{
    if s.len() > 0 {
        lemma_count_absent(s.drop_last(), t);
    }
}

/// The remaining stock of one (symbol, color) pair, starting at 8 and only
/// ever decremented.
#[derive(Clone, Copy, Debug, PartialEq, Eq, Structural)]
pub struct PiecesCount(pub i32);

impl PiecesCount {
    /// The counter stays within its initial bounds.
    pub open spec fn wf(self) -> bool {
        0 <= self.0 <= 8
    }

    /// The remaining count.
    pub fn get(&self) -> (r: i32)
        ensures
            r == self.0,
    {
        self.0
    }

    /// Takes one piece: yields it and decrements while stock remains,
    /// otherwise yields nothing and leaves the counter alone.
    pub fn take(&mut self, symbol: Symbol, color: Color) -> (r: Option<Square>)
        requires
            old(self).wf(),
        ensures
            final(self).wf(),
            old(self).0 >= 1 ==> r == Some(Square::Piece(symbol, color)) && final(self).0 == old(
                self,
            ).0 - 1,
            old(self).0 < 1 ==> r is None && *final(self) == *old(self),
    {
        if self.0 >= 1 {
            self.0 = self.0 - 1;
            Some(Square::Piece(symbol, color))
        } else {
            None
        }
    }
}

/// The four independent piece stocks, one per (symbol, color) pair.
#[derive(Clone, Copy, Debug, PartialEq, Eq, Structural)]
pub struct Pieces {
    pub x_pink: PiecesCount,
    pub x_black: PiecesCount,
    pub o_pink: PiecesCount,
    pub o_black: PiecesCount,
}

impl Pieces {
    /// The remaining stock of one pair, as a mathematical integer.
    pub open spec fn spec_get(self, symbol: Symbol, color: Color) -> int {
        match (symbol, color) {
            (Symbol::X, Color::Pink) => self.x_pink.0 as int,
            (Symbol::X, Color::Black) => self.x_black.0 as int,
            (Symbol::O, Color::Pink) => self.o_pink.0 as int,
            (Symbol::O, Color::Black) => self.o_black.0 as int,
        }
    }

    /// All four counters are within bounds.
    pub open spec fn wf(self) -> bool {
        self.x_pink.wf() && self.x_black.wf() && self.o_pink.wf() && self.o_black.wf()
    }

    /// The full initial stock.
    pub open spec fn initial() -> Pieces {
        Pieces {
            x_pink: PiecesCount(8),
            x_black: PiecesCount(8),
            o_pink: PiecesCount(8),
            o_black: PiecesCount(8),
        }
    }

    /// Takes one piece of the pair: decrements its counter and yields the
    /// piece while stock remains; every other counter is untouched.
    pub fn take(&mut self, symbol: Symbol, color: Color) -> (r: Option<Square>)
        requires
            old(self).wf(),
        ensures
            final(self).wf(),
            old(self).spec_get(symbol, color) >= 1 ==> r == Some(Square::Piece(symbol, color))
                && final(self).spec_get(symbol, color) == old(self).spec_get(symbol, color) - 1,
            old(self).spec_get(symbol, color) < 1 ==> r is None && *final(self) == *old(self),
            forall|s2: Symbol, c2: Color|
                !(s2 == symbol && c2 == color) ==> final(self).spec_get(s2, c2) == old(
                    self,
                ).spec_get(s2, c2),
    {
        match (symbol, color) {
            (Symbol::X, Color::Pink) => self.x_pink.take(symbol, color),
            (Symbol::X, Color::Black) => self.x_black.take(symbol, color),
            (Symbol::O, Color::Pink) => self.o_pink.take(symbol, color),
            (Symbol::O, Color::Black) => self.o_black.take(symbol, color),
        }
    }

    /// Whether any stock of the pair remains.
    pub fn has_left(&self, symbol: Symbol, color: Color) -> (r: bool)
        requires
            self.wf(),
        ensures
            r == (self.spec_get(symbol, color) > 0),
    {
        match (symbol, color) {
            (Symbol::X, Color::Pink) => self.x_pink.get() > 0,
            (Symbol::X, Color::Black) => self.x_black.get() > 0,
            (Symbol::O, Color::Pink) => self.o_pink.get() > 0,
            (Symbol::O, Color::Black) => self.o_black.get() > 0,
        }
    }

    /// The remaining stock of the pair.
    pub fn get(&self, symbol: Symbol, color: Color) -> (r: i32)
        ensures
            r == self.spec_get(symbol, color),
    {
        match (symbol, color) {
            (Symbol::X, Color::Pink) => self.x_pink.get(),
            (Symbol::X, Color::Black) => self.x_black.get(),
            (Symbol::O, Color::Pink) => self.o_pink.get(),
            (Symbol::O, Color::Black) => self.o_black.get(),
        }
    }
}

/// Why applying an already-built move failed: the board no longer matches
/// what the move was validated against.
#[derive(Clone, Copy, Debug, PartialEq, Eq, Structural)]
pub enum MoveApplyError {
    WrongTotemPosition,
    NotEmpty,
    NoPieceLeft,
}

/// The three mobility regimes of a totem, from most to least boxed in.
#[derive(Clone, Copy, Debug, PartialEq, Eq, Structural)]
pub enum TotemStatus {
    FullyEnclave,
    Enclave,
    Free,
}

/// The 36-cell grid in row-major order, together with the piece stocks.
#[derive(Debug)]
pub struct Board {
    pub squares: Vec<Square>,
    pub pieces: Pieces,
}

/// The squares of a fresh board: totems of `X` and `O` at the two fixed
/// interior cells (2,2) and (3,3), everything else empty.
pub open spec fn initial_squares() -> Seq<Square> {
    Seq::new(
        36,
        |i: int|
            if i == 14 {
                Square::Totem(Symbol::X)
            } else if i == 21 {
                Square::Totem(Symbol::O)
            } else {
                Square::Empty
            },
    )
}

impl Board {
    /// The content of a cell.
    pub open spec fn at(self, p: Position) -> Square {
        self.squares@[p.idx()]
    }

    /// `p` is an on-board cell holding nothing.
    pub open spec fn empty_at(self, p: Position) -> bool {
        p.wf() && self.at(p) is Empty
    }

    /// The totem of `sym` stands at `p`.
    pub open spec fn totem_at(self, sym: Symbol, p: Position) -> bool {
        p.wf() && self.at(p) == Square::Totem(sym)
    }

    /// Exactly one cell holds the totem of `sym`.
    pub open spec fn totem_unique(self, sym: Symbol) -> bool {
        &&& exists|p: Position| self.totem_at(sym, p)
        &&& forall|p: Position, q: Position|
            self.totem_at(sym, p) && self.totem_at(sym, q) ==> p == q
    }

    /// The cell holding the totem of `sym` (meaningful under
    /// `totem_unique`).
    pub open spec fn spec_totem_pos(self, sym: Symbol) -> Position {
        choose|p: Position| self.totem_at(sym, p)
    }

    /// Pieces on the board plus remaining stock always account for the full
    /// initial stock of 8, for every (symbol, color) pair.
    pub open spec fn inventory_ok(self) -> bool {
        forall|s: Symbol, c: Color|
            count_sq(self.squares@, Square::Piece(s, c)) + self.pieces.spec_get(s, c) == 8
    }

    /// The board invariant: 36 cells, bounded stocks, exactly one totem of
    /// each symbol, and a conserved piece inventory.
    pub open spec fn wf(self) -> bool {
        &&& self.squares@.len() == 36
        &&& self.pieces.wf()
        &&& self.totem_unique(Symbol::X)
        &&& self.totem_unique(Symbol::O)
        &&& self.inventory_ok()
    }

    /// The piece stocks.
    pub fn pieces(&self) -> (r: &Pieces)
        ensures
            r == self.pieces,
    {
        &self.pieces
    }

    /// Whether stock of the pair remains.
    pub fn has_left_piece(&self, symbol: Symbol, color: Color) -> (r: bool)
        requires
            self.pieces.wf(),
        ensures
            r == (self.pieces.spec_get(symbol, color) > 0),
    {
        self.pieces.has_left(symbol, color)
    }

    /// The content of the cell at `pos`.
    pub fn get(&self, pos: Position) -> (r: &Square)
        requires
            self.squares@.len() == 36,
            pos.wf(),
        ensures
            *r == self.at(pos),
    {
        &self.squares[pos.x() + pos.y() * 6]
    }

    /// The first cell (in row-major order) holding exactly `square`, if any.
    pub fn find(&self, square: Square) -> (r: Option<Position>)
        requires
            self.squares@.len() == 36,
        ensures
            match r {
                Some(p) => p.wf() && self.at(p) == square && forall|j: int|
                    0 <= j < p.idx() ==> self.squares@[j] != square,
                None => forall|j: int| 0 <= j < 36 ==> self.squares@[j] != square,
            },
    {
        let mut i: usize = 0;
        while i < 36
            invariant
                self.squares@.len() == 36,
                i <= 36,
                forall|j: int| 0 <= j < i ==> self.squares@[j] != square,
            decreases 36 - i,
        {
            if self.squares[i] == square {
                let p = Position { x: (i % 6) as u8, y: (i / 6) as u8 };
                assert(p.idx() == i);
                return Some(p);
            }
            i = i + 1;
        }
        None
    }

    /// Exchanges the contents of two cells; the stocks are untouched.
    fn swap(&mut self, pos1: Position, pos2: Position)
        requires
            old(self).squares@.len() == 36,
            pos1.wf(),
            pos2.wf(),
        ensures
            final(self).squares@ == old(self).squares@.update(pos1.idx(), old(self).at(pos2))
                .update(pos2.idx(), old(self).at(pos1)),
            final(self).pieces == old(self).pieces,
    {
        let i1 = pos1.x() + pos1.y() * 6;
        let i2 = pos2.x() + pos2.y() * 6;
        let a = self.squares[i1];
        let b = self.squares[i2];
        self.squares.set(i1, b);
        self.squares.set(i2, a);
    }

    /// Places a piece of the pair at `pos`: the cell must be empty and stock
    /// must remain, and on success the cell is filled and the stock
    /// decremented.
    fn place(&mut self, pos: Position, symbol: Symbol, color: Color) -> (r: Result<
        (),
        MoveApplyError,
    >)
        requires
            old(self).squares@.len() == 36,
            old(self).pieces.wf(),
            pos.wf(),
        ensures
            final(self).squares@.len() == 36,
            final(self).pieces.wf(),
            !(old(self).at(pos) is Empty) ==> r == Err::<(), MoveApplyError>(
                MoveApplyError::NotEmpty,
            ) && *final(self) == *old(self),
            old(self).at(pos) is Empty && old(self).pieces.spec_get(symbol, color) < 1 ==> r
                == Err::<(), MoveApplyError>(MoveApplyError::NoPieceLeft) && *final(self) == *old(
                self,
            ),
            old(self).at(pos) is Empty && old(self).pieces.spec_get(symbol, color) >= 1 ==> {
                &&& r is Ok
                &&& final(self).squares@ == old(self).squares@.update(
                    pos.idx(),
                    Square::Piece(symbol, color),
                )
                &&& final(self).pieces.spec_get(symbol, color) == old(self).pieces.spec_get(
                    symbol,
                    color,
                ) - 1
                &&& forall|s2: Symbol, c2: Color|
                    !(s2 == symbol && c2 == color) ==> final(self).pieces.spec_get(s2, c2) == old(
                        self,
                    ).pieces.spec_get(s2, c2)
            },
    {
        let i = pos.x() + pos.y() * 6;
        if matches!(self.squares[i], Square::Empty) {
            match self.pieces.take(symbol, color) {
                Some(piece) => {
                    self.squares.set(i, piece);
                    Ok(())
                },
                None => Err(MoveApplyError::NoPieceLeft),
            }
        } else {
            Err(MoveApplyError::NotEmpty)
        }
    }

    /// Whether every stock is exhausted.
    pub fn no_more_pieces(&self) -> (r: bool)
        requires
            self.pieces.wf(),
        ensures
            r == (forall|s: Symbol, c: Color| self.pieces.spec_get(s, c) == 0),
    {
        let r = !self.pieces.has_left(Symbol::O, Color::Pink) && !self.pieces.has_left(
            Symbol::X,
            Color::Pink,
        ) && !self.pieces.has_left(Symbol::O, Color::Black) && !self.pieces.has_left(
            Symbol::X,
            Color::Black,
        );
        proof {
            if r {
                assert forall|s: Symbol, c: Color| self.pieces.spec_get(s, c) == 0 by {
                    match (s, c) {
                        (Symbol::X, Color::Pink) => {},
                        (Symbol::X, Color::Black) => {},
                        (Symbol::O, Color::Pink) => {},
                        (Symbol::O, Color::Black) => {},
                    }
                }
            }
        }
        r
    }
}

impl Board {
    /// At least one orthogonal neighbor of `p` is empty: the totem may
    /// slide.
    pub open spec fn is_free(self, p: Position) -> bool {
        exists|q: Position| p.adjacent(q) && self.empty_at(q)
    }

    /// Some cell on `p`'s row or column is empty: a directional escape
    /// exists.
    pub open spec fn has_aligned_empty(self, p: Position) -> bool {
        exists|q: Position| p.aligned(q) && self.empty_at(q)
    }

    /// Some cell of the board is empty.
    pub open spec fn has_any_empty(self) -> bool {
        exists|q: Position| self.empty_at(q)
    }

    /// The mobility regime of a totem standing at `p`.
    pub open spec fn spec_status(self, p: Position) -> TotemStatus {
        if self.is_free(p) {
            TotemStatus::Free
        } else if self.has_aligned_empty(p) {
            TotemStatus::Enclave
        } else {
            TotemStatus::FullyEnclave
        }
    }

    /// A sliding move: `q` is an empty cell on `p`'s row or column and every
    /// cell strictly between them is empty as well.
    pub open spec fn free_move_ok(self, p: Position, q: Position) -> bool {
        &&& p.aligned(q)
        &&& self.empty_at(q)
        &&& forall|c: Position| p.between(q, c) ==> self.empty_at(c)
    }

    /// A hop: `q` is the first empty cell of its direction, every cell
    /// strictly between `p` and `q` being occupied.
    pub open spec fn enclave_move_ok(self, p: Position, q: Position) -> bool {
        &&& p.aligned(q)
        &&& self.empty_at(q)
        &&& forall|c: Position| p.between(q, c) ==> !self.empty_at(c)
    }

    /// The legal destinations of the totem standing at `p`, by regime:
    /// sliding when free, hopping to the first empty cell per direction when
    /// enclaved, anywhere empty when fully enclaved.
    pub open spec fn totem_move_ok(self, p: Position, q: Position) -> bool {
        if self.is_free(p) {
            self.free_move_ok(p, q)
        } else if self.has_aligned_empty(p) {
            self.enclave_move_ok(p, q)
        } else {
            self.empty_at(q)
        }
    }

    /// The legal totem destinations, as a set.
    pub open spec fn totem_moves_set(self, p: Position) -> Set<Position> {
        Set::new(|q: Position| self.totem_move_ok(p, q))
    }

    /// Whether at least one orthogonal neighbor of `pos` is empty.
    fn free_here(&self, pos: Position) -> (r: bool)
        requires
            self.squares@.len() == 36,
            pos.wf(),
        ensures
            r == self.is_free(pos),
    {
        let right_ok = pos.x < 5 && self.get(Position { x: pos.x + 1, y: pos.y }).is_empty();
        let left_ok = pos.x > 0 && self.get(Position { x: pos.x - 1, y: pos.y }).is_empty();
        let down_ok = pos.y < 5 && self.get(Position { x: pos.x, y: pos.y + 1 }).is_empty();
        let up_ok = pos.y > 0 && self.get(Position { x: pos.x, y: pos.y - 1 }).is_empty();
        let r = right_ok || left_ok || down_ok || up_ok;
        proof {
            if right_ok {
                assert(pos.adjacent(Position { x: (pos.x + 1) as u8, y: pos.y }));
            } else if left_ok {
                assert(pos.adjacent(Position { x: (pos.x - 1) as u8, y: pos.y }));
            } else if down_ok {
                assert(pos.adjacent(Position { x: pos.x, y: (pos.y + 1) as u8 }));
            } else if up_ok {
                assert(pos.adjacent(Position { x: pos.x, y: (pos.y - 1) as u8 }));
            } else {
                assert forall|q: Position| pos.adjacent(q) implies !self.empty_at(q) by {
                    if q.x == pos.x + 1 && q.y == pos.y {
                        assert(q == (Position { x: (pos.x + 1) as u8, y: pos.y }));
                    } else if pos.x == q.x + 1 && q.y == pos.y {
                        assert(q == (Position { x: (pos.x - 1) as u8, y: pos.y }));
                    } else if q.x == pos.x && q.y == pos.y + 1 {
                        assert(q == (Position { x: pos.x, y: (pos.y + 1) as u8 }));
                    } else {
                        assert(q == (Position { x: pos.x, y: (pos.y - 1) as u8 }));
                    }
                }
            }
        }
        r
    }

    /// Whether some cell on `pos`'s row or column, other than `pos`, is
    /// empty.
    fn aligned_empty_here(&self, pos: Position) -> (r: bool)
        requires
            self.squares@.len() == 36,
            pos.wf(),
        ensures
            r == self.has_aligned_empty(pos),
    {
        let mut x: u8 = 0;
        while x < 6
            invariant
                self.squares@.len() == 36,
                pos.wf(),
                x <= 6,
                forall|q: Position|
                    q.wf() && q.y == pos.y && q.x < x && q != pos ==> !self.empty_at(q),
            decreases 6 - x,
        {
            if x != pos.x {
                let q = Position { x, y: pos.y };
                if self.get(q).is_empty() {
                    proof {
                        assert(pos.aligned(q));
                    }
                    return true;
                }
            }
            x = x + 1;
        }
        let mut y: u8 = 0;
        while y < 6
            invariant
                self.squares@.len() == 36,
                pos.wf(),
                y <= 6,
                forall|q: Position|
                    q.wf() && q.y == pos.y && q != pos ==> !self.empty_at(q),
                forall|q: Position|
                    q.wf() && q.x == pos.x && q.y < y && q != pos ==> !self.empty_at(q),
            decreases 6 - y,
        {
            if y != pos.y {
                let q = Position { x: pos.x, y };
                if self.get(q).is_empty() {
                    proof {
                        assert(pos.aligned(q));
                    }
                    return true;
                }
            }
            y = y + 1;
        }
        proof {
            assert forall|q: Position| pos.aligned(q) implies !self.empty_at(q) by {}
        }
        false
    }

    /// Whether every cell strictly between `p` and `q` is empty.
    fn all_between_empty(&self, p: Position, q: Position) -> (r: bool)
        requires
            self.squares@.len() == 36,
            p.aligned(q),
        ensures
            r == (forall|c: Position| p.between(q, c) ==> self.empty_at(c)),
    {
        if p.y == q.y {
            let lo = if p.x < q.x {
                p.x
            } else {
                q.x
            };
            let hi = if p.x < q.x {
                q.x
            } else {
                p.x
            };
            let mut x: u8 = lo + 1;
            while x < hi
                invariant
                    self.squares@.len() == 36,
                    p.wf(),
                    q.wf(),
                    p.y == q.y,
                    p.x != q.x,
                    lo == if p.x < q.x { p.x } else { q.x },
                    hi == if p.x < q.x { q.x } else { p.x },
                    lo < x <= hi,
                    forall|c: Position|
                        c.wf() && c.y == p.y && lo < c.x < x ==> self.empty_at(c),
                decreases hi - x,
            {
                let c = Position { x, y: p.y };
                if !self.get(c).is_empty() {
                    proof {
                        assert(p.between(q, c) && !self.empty_at(c));
                        assert(!(forall|c2: Position| p.between(q, c2) ==> self.empty_at(c2)));
                    }
                    return false;
                }
                x = x + 1;
            }
            true
        } else {
            let lo = if p.y < q.y {
                p.y
            } else {
                q.y
            };
            let hi = if p.y < q.y {
                q.y
            } else {
                p.y
            };
            let mut y: u8 = lo + 1;
            while y < hi
                invariant
                    self.squares@.len() == 36,
                    p.wf(),
                    q.wf(),
                    p.x == q.x,
                    p.y != q.y,
                    lo == if p.y < q.y { p.y } else { q.y },
                    hi == if p.y < q.y { q.y } else { p.y },
                    lo < y <= hi,
                    forall|c: Position|
                        c.wf() && c.x == p.x && lo < c.y < y ==> self.empty_at(c),
                decreases hi - y,
            {
                let c = Position { x: p.x, y };
                if !self.get(c).is_empty() {
                    proof {
                        assert(p.between(q, c) && !self.empty_at(c));
                        assert(!(forall|c2: Position| p.between(q, c2) ==> self.empty_at(c2)));
                    }
                    return false;
                }
                y = y + 1;
            }
            true
        }
    }

    /// Whether every cell strictly between `p` and `q` is occupied.
    fn all_between_occupied(&self, p: Position, q: Position) -> (r: bool)
        requires
            self.squares@.len() == 36,
            p.aligned(q),
        ensures
            r == (forall|c: Position| p.between(q, c) ==> !self.empty_at(c)),
    {
        if p.y == q.y {
            let lo = if p.x < q.x {
                p.x
            } else {
                q.x
            };
            let hi = if p.x < q.x {
                q.x
            } else {
                p.x
            };
            let mut x: u8 = lo + 1;
            while x < hi
                invariant
                    self.squares@.len() == 36,
                    p.wf(),
                    q.wf(),
                    p.y == q.y,
                    p.x != q.x,
                    lo == if p.x < q.x { p.x } else { q.x },
                    hi == if p.x < q.x { q.x } else { p.x },
                    lo < x <= hi,
                    forall|c: Position|
                        c.wf() && c.y == p.y && lo < c.x < x ==> !self.empty_at(c),
                decreases hi - x,
            {
                let c = Position { x, y: p.y };
                if self.get(c).is_empty() {
                    proof {
                        assert(p.between(q, c) && self.empty_at(c));
                        assert(!(forall|c2: Position| p.between(q, c2) ==> !self.empty_at(c2)));
                    }
                    return false;
                }
                x = x + 1;
            }
            true
        } else {
            let lo = if p.y < q.y {
                p.y
            } else {
                q.y
            };
            let hi = if p.y < q.y {
                q.y
            } else {
                p.y
            };
            let mut y: u8 = lo + 1;
            while y < hi
                invariant
                    self.squares@.len() == 36,
                    p.wf(),
                    q.wf(),
                    p.x == q.x,
                    p.y != q.y,
                    lo == if p.y < q.y { p.y } else { q.y },
                    hi == if p.y < q.y { q.y } else { p.y },
                    lo < y <= hi,
                    forall|c: Position|
                        c.wf() && c.x == p.x && lo < c.y < y ==> !self.empty_at(c),
                decreases hi - y,
            {
                let c = Position { x: p.x, y };
                if self.get(c).is_empty() {
                    proof {
                        assert(p.between(q, c) && self.empty_at(c));
                        assert(!(forall|c2: Position| p.between(q, c2) ==> !self.empty_at(c2)));
                    }
                    return false;
                }
                y = y + 1;
            }
            true
        }
    }

    /// Classifies the totem at `pos` into its mobility regime.
    pub fn totem_status(&self, pos: Position) -> (r: TotemStatus)
        requires
            self.squares@.len() == 36,
            pos.wf(),
        ensures
            r == self.spec_status(pos),
    {
        if self.free_here(pos) {
            TotemStatus::Free
        } else if self.aligned_empty_here(pos) {
            TotemStatus::Enclave
        } else {
            TotemStatus::FullyEnclave
        }
    }

    /// The legal destinations of the totem standing at `pos`. The result
    /// contains exactly the cells that `totem_move_ok` admits, so two
    /// queries of an unchanged board yield the same set.
    pub fn totem_valid_moves(&self, pos: Position) -> (r: Vec<Position>)
        requires
            self.squares@.len() == 36,
            pos.wf(),
        ensures
            forall|q: Position| r@.contains(q) <==> self.totem_move_ok(pos, q),
            r@.to_set() == self.totem_moves_set(pos),
    {
        let status = self.totem_status(pos);
        let mut v: Vec<Position> = Vec::new();
        let mut i: u8 = 0;
        while i < 36
            invariant
                self.squares@.len() == 36,
                pos.wf(),
                i <= 36,
                status == self.spec_status(pos),
                forall|q: Position| v@.contains(q) ==> self.totem_move_ok(pos, q),
                forall|q: Position|
                    self.totem_move_ok(pos, q) && q.idx() < i ==> v@.contains(q),
            decreases 36 - i,
        {
            let q = Position { x: i % 6, y: i / 6 };
            proof {
                assert(q.wf());
                assert(q.idx() == i);
            }
            let ok = match status {
                TotemStatus::Free => (q.x != pos.x || q.y != pos.y) && (q.x == pos.x || q.y
                    == pos.y) && self.get(q).is_empty() && self.all_between_empty(pos, q),
                TotemStatus::Enclave => (q.x != pos.x || q.y != pos.y) && (q.x == pos.x || q.y
                    == pos.y) && self.get(q).is_empty() && self.all_between_occupied(pos, q),
                TotemStatus::FullyEnclave => self.get(q).is_empty(),
            };
            proof {
                assert(ok == self.totem_move_ok(pos, q));
            }
            let ghost v0 = v@;
            if ok {
                v.push(q);
                proof {
                    assert(v@[v0.len() as int] == q);
                    assert forall|q2: Position| v@.contains(q2) implies self.totem_move_ok(
                        pos,
                        q2,
                    ) by {
                        let j = choose|j: int| 0 <= j < v@.len() && v@[j] == q2;
                        if j < v0.len() {
                            assert(v0[j] == q2);
                            assert(v0.contains(q2));
                        }
                    }
                }
            }
            proof {
                assert forall|q2: Position|
                    self.totem_move_ok(pos, q2) && q2.idx() < i + 1 implies v@.contains(q2) by {
                    if q2.idx() == i {
                        assert(q2.wf());
                        lemma_idx_injective(q2, q);
                        assert(ok);
                        assert(v@[v@.len() - 1] == q);
                    } else {
                        assert(v0.contains(q2));
                        let j = choose|j: int| 0 <= j < v0.len() && v0[j] == q2;
                        assert(v@[j] == q2);
                    }
                }
            }
            i = i + 1;
        }
        proof {
            assert forall|q: Position| self.totem_move_ok(pos, q) implies v@.contains(q) by {
                assert(q.wf());
                assert(q.idx() < 36);
            }
            assert(v@.to_set() =~= self.totem_moves_set(pos));
        }
        v
    }
}

impl Board {
    /// A placement candidate next to the totem destination `t`: an on-board
    /// neighbor of `t` that is empty or is the cell the totem vacates.
    pub open spec fn neighbor_candidate(self, t: Position, sym: Symbol, q: Position) -> bool {
        t.adjacent(q) && (self.empty_at(q) || q == self.spec_totem_pos(sym))
    }

    /// Whether any neighbor of `t` is a placement candidate.
    pub open spec fn has_neighbor_candidate(self, t: Position, sym: Symbol) -> bool {
        exists|q: Position| self.neighbor_candidate(t, sym, q)
    }

    /// The legal piece placements after moving the totem of `sym` to `t`:
    /// the candidate neighbors of `t` when there are any, otherwise any
    /// empty cell or the vacated totem cell, `t` itself excluded.
    pub open spec fn piece_move_ok(self, t: Position, sym: Symbol, q: Position) -> bool {
        if self.has_neighbor_candidate(t, sym) {
            self.neighbor_candidate(t, sym, q)
        } else {
            q != t && q.wf() && (self.empty_at(q) || q == self.spec_totem_pos(sym))
        }
    }

    /// The legal piece placements, as a set.
    pub open spec fn piece_moves_set(self, t: Position, sym: Symbol) -> Set<Position> {
        Set::new(|q: Position| self.piece_move_ok(t, sym, q))
    }

    /// The legal cells for the new piece, given the chosen totem
    /// destination. The result contains exactly the cells that
    /// `piece_move_ok` admits, so two queries of an unchanged board yield
    /// the same set.
    pub fn piece_valid_moves(&self, totem_pos: Position, symbol: Symbol) -> (r: Vec<Position>)
        requires
            self.wf(),
            totem_pos.wf(),
        ensures
            forall|q: Position| r@.contains(q) <==> self.piece_move_ok(totem_pos, symbol, q),
            r@.to_set() == self.piece_moves_set(totem_pos, symbol),
    {
        let actual = match self.find(Square::Totem(symbol)) {
            Some(p) => p,
            None => {
                proof {
                    assert(self.totem_unique(symbol)) by {
                        match symbol {
                            Symbol::X => {},
                            Symbol::O => {},
                        }
                    }
                    let w = choose|p: Position| self.totem_at(symbol, p);
                    assert(self.totem_at(symbol, w));
                    assert(false);
                }
                vstd::pervasive::unreached()
            },
        };
        proof {
            assert(self.totem_unique(symbol)) by {
                match symbol {
                    Symbol::X => {},
                    Symbol::O => {},
                }
            }
            assert(self.totem_at(symbol, actual));
            let c = self.spec_totem_pos(symbol);
            assert(self.totem_at(symbol, c));
            assert(actual == c);
        }
        let mut v: Vec<Position> = Vec::new();
        let mut i: u8 = 0;
        while i < 36
            invariant
                self.wf(),
                totem_pos.wf(),
                i <= 36,
                actual == self.spec_totem_pos(symbol),
                forall|q: Position|
                    v@.contains(q) ==> self.neighbor_candidate(totem_pos, symbol, q),
                forall|q: Position|
                    self.neighbor_candidate(totem_pos, symbol, q) && q.idx() < i ==> v@.contains(
                        q,
                    ),
            decreases 36 - i,
        {
            let q = Position { x: i % 6, y: i / 6 };
            proof {
                assert(q.wf());
                assert(q.idx() == i);
            }
            let adj = (q.x == totem_pos.x + 1 && q.y == totem_pos.y) || (totem_pos.x == q.x + 1
                && q.y == totem_pos.y) || (q.x == totem_pos.x && q.y == totem_pos.y + 1) || (q.x
                == totem_pos.x && totem_pos.y == q.y + 1);
            proof {
                assert(adj == totem_pos.adjacent(q));
            }
            let ok = adj && (self.get(q).is_empty() || q == actual);
            proof {
                assert(ok == self.neighbor_candidate(totem_pos, symbol, q));
            }
            let ghost v0 = v@;
            if ok {
                v.push(q);
                proof {
                    assert(v@[v0.len() as int] == q);
                    assert forall|q2: Position| v@.contains(q2) implies self.neighbor_candidate(
                        totem_pos,
                        symbol,
                        q2,
                    ) by {
                        let j = choose|j: int| 0 <= j < v@.len() && v@[j] == q2;
                        if j < v0.len() {
                            assert(v0[j] == q2);
                            assert(v0.contains(q2));
                        }
                    }
                }
            }
            proof {
                assert forall|q2: Position|
                    self.neighbor_candidate(totem_pos, symbol, q2) && q2.idx() < i + 1
                        implies v@.contains(q2) by {
                    if q2.idx() == i {
                        assert(q2.wf());
                        lemma_idx_injective(q2, q);
                        assert(ok);
                        assert(v@[v@.len() - 1] == q);
                    } else {
                        assert(v0.contains(q2));
                        let j = choose|j: int| 0 <= j < v0.len() && v0[j] == q2;
                        assert(v@[j] == q2);
                    }
                }
            }
            i = i + 1;
        }
        if v.len() > 0 {
            proof {
                assert(v@.contains(v@[0]));
                assert(self.has_neighbor_candidate(totem_pos, symbol));
                assert(v@.to_set() =~= self.piece_moves_set(totem_pos, symbol));
            }
            return v;
        }
        proof {
            assert forall|q: Position|
                !self.neighbor_candidate(totem_pos, symbol, q) by {
                if self.neighbor_candidate(totem_pos, symbol, q) {
                    assert(q.wf());
                    assert(q.idx() < 36);
                    assert(v@.contains(q));
                }
            }
        }
        let mut w: Vec<Position> = Vec::new();
        let mut i2: u8 = 0;
        while i2 < 36
            invariant
                self.wf(),
                totem_pos.wf(),
                i2 <= 36,
                actual == self.spec_totem_pos(symbol),
                !self.has_neighbor_candidate(totem_pos, symbol),
                forall|q: Position| w@.contains(q) ==> self.piece_move_ok(totem_pos, symbol, q),
                forall|q: Position|
                    self.piece_move_ok(totem_pos, symbol, q) && q.idx() < i2 ==> w@.contains(q),
            decreases 36 - i2,
        {
            let q = Position { x: i2 % 6, y: i2 / 6 };
            proof {
                assert(q.wf());
                assert(q.idx() == i2);
            }
            let ok = (q != totem_pos) && (self.get(q).is_empty() || q == actual);
            proof {
                assert(ok == self.piece_move_ok(totem_pos, symbol, q));
            }
            let ghost w0 = w@;
            if ok {
                w.push(q);
                proof {
                    assert(w@[w0.len() as int] == q);
                    assert forall|q2: Position| w@.contains(q2) implies self.piece_move_ok(
                        totem_pos,
                        symbol,
                        q2,
                    ) by {
                        let j = choose|j: int| 0 <= j < w@.len() && w@[j] == q2;
                        if j < w0.len() {
                            assert(w0[j] == q2);
                            assert(w0.contains(q2));
                        }
                    }
                }
            }
            proof {
                assert forall|q2: Position|
                    self.piece_move_ok(totem_pos, symbol, q2) && q2.idx() < i2 + 1
                        implies w@.contains(q2) by {
                    if q2.idx() == i2 {
                        assert(q2.wf());
                        lemma_idx_injective(q2, q);
                        assert(ok);
                        assert(w@[w@.len() - 1] == q);
                    } else {
                        assert(w0.contains(q2));
                        let j = choose|j: int| 0 <= j < w0.len() && w0[j] == q2;
                        assert(w@[j] == q2);
                    }
                }
            }
            i2 = i2 + 1;
        }
        proof {
            assert forall|q: Position|
                self.piece_move_ok(totem_pos, symbol, q) implies w@.contains(q) by {
                assert(q.wf());
                assert(q.idx() < 36);
            }
            assert(w@.to_set() =~= self.piece_moves_set(totem_pos, symbol));
        }
        w
    }

    /// All four cells hold pieces.
    pub open spec fn all_pieces(self, ps: Seq<Position>) -> bool {
        forall|k: int| 0 <= k < ps.len() ==> self.at(ps[k]) is Piece
    }

    /// All cells hold pieces of the same symbol as the first one.
    pub open spec fn same_symbol(self, ps: Seq<Position>) -> bool {
        forall|k: int|
            0 <= k < ps.len() ==> piece_symbol(#[trigger] self.at(ps[k])) == piece_symbol(
                self.at(ps[0]),
            )
    }

    /// All cells hold pieces of the same color as the first one.
    pub open spec fn same_color(self, ps: Seq<Position>) -> bool {
        forall|k: int|
            0 <= k < ps.len() ==> piece_color(#[trigger] self.at(ps[k])) == piece_color(
                self.at(ps[0]),
            )
    }

    /// A window wins when its four cells all hold pieces and those pieces
    /// share a symbol or share a color.
    pub open spec fn spec_wins(self, ps: Seq<Position>) -> bool {
        &&& ps.len() == 4
        &&& self.all_pieces(ps)
        &&& (self.same_symbol(ps) || self.same_color(ps))
    }

    /// Whether the four given cells form a winning line.
    pub fn wins(&self, four: [Position; 4]) -> (r: bool)
        requires
            self.squares@.len() == 36,
            forall|k: int| 0 <= k < 4 ==> four@[k].wf(),
        ensures
            r == self.spec_wins(four@),
    {
        let s0 = *self.get(four[0]);
        let s1 = *self.get(four[1]);
        let s2 = *self.get(four[2]);
        let s3 = *self.get(four[3]);
        match (s0, s1, s2, s3) {
            (
                Square::Piece(sy0, c0),
                Square::Piece(sy1, c1),
                Square::Piece(sy2, c2),
                Square::Piece(sy3, c3),
            ) => {
                let same_sym = sy1 == sy0 && sy2 == sy0 && sy3 == sy0;
                let same_col = c1 == c0 && c2 == c0 && c3 == c0;
                let r = same_sym || same_col;
                proof {
                    assert forall|k: int| 0 <= k < 4 implies self.at(four@[k]) is Piece by {
                        assert(self.at(four@[0]) == s0);
                        assert(self.at(four@[1]) == s1);
                        assert(self.at(four@[2]) == s2);
                        assert(self.at(four@[3]) == s3);
                    }
                    if same_sym {
                        assert forall|k: int|
                            0 <= k < 4 implies piece_symbol(#[trigger] self.at(four@[k]))
                                == piece_symbol(self.at(four@[0])) by {
                            assert(self.at(four@[1]) == s1);
                            assert(self.at(four@[2]) == s2);
                            assert(self.at(four@[3]) == s3);
                        }
                    }
                    if same_col {
                        assert forall|k: int|
                            0 <= k < 4 implies piece_color(#[trigger] self.at(four@[k]))
                                == piece_color(self.at(four@[0])) by {
                            assert(self.at(four@[1]) == s1);
                            assert(self.at(four@[2]) == s2);
                            assert(self.at(four@[3]) == s3);
                        }
                    }
                    if !same_sym && !same_col {
                        if sy1 != sy0 {
                            assert(piece_symbol(self.at(four@[1])) != piece_symbol(
                                self.at(four@[0]),
                            ));
                        } else if sy2 != sy0 {
                            assert(piece_symbol(self.at(four@[2])) != piece_symbol(
                                self.at(four@[0]),
                            ));
                        } else {
                            assert(piece_symbol(self.at(four@[3])) != piece_symbol(
                                self.at(four@[0]),
                            ));
                        }
                        if c1 != c0 {
                            assert(piece_color(self.at(four@[1])) != piece_color(
                                self.at(four@[0]),
                            ));
                        } else if c2 != c0 {
                            assert(piece_color(self.at(four@[2])) != piece_color(
                                self.at(four@[0]),
                            ));
                        } else {
                            assert(piece_color(self.at(four@[3])) != piece_color(
                                self.at(four@[0]),
                            ));
                        }
                    }
                }
                r
            },
            _ => {
                proof {
                    if s0 is Piece && s1 is Piece && s2 is Piece && s3 is Piece {
                        assert(false);
                    }
                    if !(s0 is Piece) {
                        assert(!(self.at(four@[0]) is Piece));
                    } else if !(s1 is Piece) {
                        assert(!(self.at(four@[1]) is Piece));
                    } else if !(s2 is Piece) {
                        assert(!(self.at(four@[2]) is Piece));
                    } else {
                        assert(!(self.at(four@[3]) is Piece));
                    }
                }
                false
            },
        }
    }
}

/// The number of orthogonal steps separating two positions on their row and
/// column.
spec fn axis_dist(p: Position, q: Position) -> int {
    (if p.x <= q.x {
        q.x - p.x
    } else {
        p.x - q.x
    }) + (if p.y <= q.y {
        q.y - p.y
    } else {
        p.y - q.y
    })
}

/// Walking inward from an aligned empty cell reaches a first empty cell:
/// one with every cell strictly before it occupied.
proof fn nearest_aligned_empty(b: Board, p: Position, q0: Position) -> (q: Position)
    requires
        b.squares@.len() == 36,
        p.aligned(q0),
        b.empty_at(q0),
    ensures
        b.enclave_move_ok(p, q),
    decreases axis_dist(p, q0),
{
    if forall|c: Position| p.between(q0, c) ==> !b.empty_at(c) {
        q0
    } else {
        let c = choose|c: Position| p.between(q0, c) && b.empty_at(c);
        assert(p.aligned(c));
        nearest_aligned_empty(b, p, c)
    }
}

/// Coverage of the three mobility regimes: while any cell of the board is
/// empty, the totem standing at `p` has at least one legal destination —
/// a slide when free, a hop when enclaved, a teleport when fully enclaved.
pub proof fn lemma_totem_moves_nonempty(b: Board, p: Position)
    requires
        b.squares@.len() == 36,
        p.wf(),
        b.has_any_empty(),
    ensures
        exists|q: Position| b.totem_move_ok(p, q),
{
    if b.is_free(p) {
        let q = choose|q: Position| p.adjacent(q) && b.empty_at(q);
        assert(p.aligned(q));
        assert(b.free_move_ok(p, q));
        assert(b.totem_move_ok(p, q));
    } else if b.has_aligned_empty(p) {
        let q0 = choose|q: Position| p.aligned(q) && b.empty_at(q);
        let q = nearest_aligned_empty(b, p, q0);
        assert(b.totem_move_ok(p, q));
    } else {
        let q = choose|q: Position| b.empty_at(q);
        assert(b.totem_move_ok(p, q));
    }
}

/// The chosen totem destination never receives the new piece: every legal
/// placement is a different cell.
pub proof fn lemma_piece_moves_exclude_totem_dest(
    b: Board,
    t: Position,
    sym: Symbol,
    q: Position,
)
    requires
        b.piece_move_ok(t, sym, q),
    ensures
        q != t,
{
}

/// The legal totem destinations are a function of the board and position
/// alone: any two enumerations of them hold the same set.
pub proof fn lemma_totem_moves_unique(b: Board, p: Position, v1: Seq<Position>, v2: Seq<Position>)
    requires
        forall|q: Position| v1.contains(q) <==> b.totem_move_ok(p, q),
        forall|q: Position| v2.contains(q) <==> b.totem_move_ok(p, q),
    ensures
        v1.to_set() == b.totem_moves_set(p),
        v2.to_set() == b.totem_moves_set(p),
        v1.to_set() == v2.to_set(),
{
    assert(v1.to_set() =~= b.totem_moves_set(p));
    assert(v2.to_set() =~= b.totem_moves_set(p));
}

/// The legal piece placements are a function of the board, totem
/// destination and symbol alone: any two enumerations hold the same set.
pub proof fn lemma_piece_moves_unique(
    b: Board,
    t: Position,
    sym: Symbol,
    v1: Seq<Position>,
    v2: Seq<Position>,
)
    requires
        forall|q: Position| v1.contains(q) <==> b.piece_move_ok(t, sym, q),
        forall|q: Position| v2.contains(q) <==> b.piece_move_ok(t, sym, q),
    ensures
        v1.to_set() == b.piece_moves_set(t, sym),
        v2.to_set() == b.piece_moves_set(t, sym),
        v1.to_set() == v2.to_set(),
{
    assert(v1.to_set() =~= b.piece_moves_set(t, sym));
    assert(v2.to_set() =~= b.piece_moves_set(t, sym));
}

/// On every well-formed board exactly one cell holds the totem of `X` and
/// exactly one holds the totem of `O`; `Board::default` establishes this
/// and `apply` preserves it, so it holds after any sequence of applied
/// moves.
pub proof fn lemma_totems_unique(b: Board)
    requires
        b.wf(),
    ensures
        b.totem_unique(Symbol::X),
        b.totem_unique(Symbol::O),
{
}

/// On every well-formed board the pieces placed on the board plus the
/// remaining stock account for the full initial stock of 8, for every
/// (symbol, color) pair; `Board::default` establishes this and `apply`
/// preserves it.
pub proof fn lemma_inventory_conserved(b: Board, s: Symbol, c: Color)
    requires
        b.wf(),
    ensures
        count_sq(b.squares@, Square::Piece(s, c)) + b.pieces.spec_get(s, c) == 8,
{
}

/// Exchanging the contents of two cells preserves the board invariant: the
/// totems are merely permuted and the piece counts are untouched.
proof fn lemma_swap_preserves_wf(b0: Board, b1: Board, p1: Position, p2: Position)
    requires
        b0.wf(),
        p1.wf(),
        p2.wf(),
        b1.squares@ == b0.squares@.update(p1.idx(), b0.at(p2)).update(p2.idx(), b0.at(p1)),
        b1.pieces == b0.pieces,
    ensures
        b1.wf(),
        forall|q: Position|
            q.wf() ==> #[trigger] b1.at(q) == (if q == p2 {
                b0.at(p1)
            } else if q == p1 {
                b0.at(p2)
            } else {
                b0.at(q)
            }),
{
    assert forall|q: Position|
        q.wf() implies #[trigger] b1.at(q) == (if q == p2 {
        b0.at(p1)
    } else if q == p1 {
        b0.at(p2)
    } else {
        b0.at(q)
    }) by {
        if q.idx() == p1.idx() {
            lemma_idx_injective(q, p1);
        }
        if q.idx() == p2.idx() {
            lemma_idx_injective(q, p2);
        }
    }
    assert forall|sym: Symbol| #[trigger] b0.totem_unique(sym) implies b1.totem_unique(sym) by {
        let t = choose|p: Position| b0.totem_at(sym, p);
        assert(b0.totem_at(sym, t));
        let t2 = if t == p1 {
            p2
        } else if t == p2 {
            p1
        } else {
            t
        };
        assert(b1.totem_at(sym, t2));
        assert forall|a: Position, b: Position|
            b1.totem_at(sym, a) && b1.totem_at(sym, b) implies a == b by {
            let a0 = if a == p1 {
                p2
            } else if a == p2 {
                p1
            } else {
                a
            };
            let b_0 = if b == p1 {
                p2
            } else if b == p2 {
                p1
            } else {
                b
            };
            assert(b0.totem_at(sym, a0));
            assert(b0.totem_at(sym, b_0));
            assert(a0 == b_0);
        }
    }
    assert(b0.totem_unique(Symbol::X));
    assert(b0.totem_unique(Symbol::O));
    assert forall|s: Symbol, c: Color|
        count_sq(b1.squares@, Square::Piece(s, c)) + b1.pieces.spec_get(s, c) == 8 by {
        let t = Square::Piece(s, c);
        let s0 = b0.squares@;
        let s_a = s0.update(p1.idx(), b0.at(p2));
        lemma_count_update(s0, p1.idx(), b0.at(p2), t);
        lemma_count_update(s_a, p2.idx(), b0.at(p1), t);
    }
}

/// Filling an empty cell with a freshly taken piece preserves the board
/// invariant: no totem moves and the inventory balances the new piece.
proof fn lemma_place_preserves_wf(b1: Board, b2: Board, pp: Position, sym: Symbol, col: Color)
    requires
        b1.wf(),
        pp.wf(),
        b1.at(pp) is Empty,
        b1.pieces.spec_get(sym, col) >= 1,
        b2.squares@ == b1.squares@.update(pp.idx(), Square::Piece(sym, col)),
        b2.pieces.wf(),
        b2.pieces.spec_get(sym, col) == b1.pieces.spec_get(sym, col) - 1,
        forall|s2: Symbol, c2: Color|
            !(s2 == sym && c2 == col) ==> b2.pieces.spec_get(s2, c2) == b1.pieces.spec_get(s2, c2),
    ensures
        b2.wf(),
{
    assert forall|q: Position|
        q.wf() implies #[trigger] b2.at(q) == (if q == pp {
        Square::Piece(sym, col)
    } else {
        b1.at(q)
    }) by {
        if q.idx() == pp.idx() {
            lemma_idx_injective(q, pp);
        }
    }
    assert forall|sy: Symbol| #[trigger] b1.totem_unique(sy) implies b2.totem_unique(sy) by {
        let t = choose|p: Position| b1.totem_at(sy, p);
        assert(b1.totem_at(sy, t));
        assert(b2.totem_at(sy, t));
        assert forall|a: Position, b: Position|
            b2.totem_at(sy, a) && b2.totem_at(sy, b) implies a == b by {
            assert(b1.totem_at(sy, a));
            assert(b1.totem_at(sy, b));
        }
    }
    assert(b1.totem_unique(Symbol::X));
    assert(b1.totem_unique(Symbol::O));
    assert forall|s: Symbol, c: Color|
        count_sq(b2.squares@, Square::Piece(s, c)) + b2.pieces.spec_get(s, c) == 8 by {
        lemma_count_update(b1.squares@, pp.idx(), Square::Piece(sym, col), Square::Piece(s, c));
    }
}

impl Board {
    /// Applies a validated move: relocates the totem, then places the
    /// piece. The totem is verified to still stand where the move says; the
    /// relocation is committed before the placement is attempted, so a
    /// placement failure leaves the totem already moved (stale moves are
    /// the caller's responsibility, not reachable through the builder).
    pub fn apply(&mut self, moves: Moves, player: &Player) -> (r: Result<(), MoveApplyError>)
        requires
            old(self).wf(),
            moves.wf(),
        ensures
            final(self).wf(),
            ({
                let sym = moves.spec_symbol();
                let po = moves.spec_totem_old_pos();
                let pn = moves.spec_totem_new_pos();
                let pp = moves.spec_piece_pos();
                let s1 = old(self).squares@.update(po.idx(), old(self).at(pn)).update(
                    pn.idx(),
                    old(self).at(po),
                );
                if old(self).at(po) != Square::Totem(sym) {
                    r == Err::<(), MoveApplyError>(MoveApplyError::WrongTotemPosition) && *final(self) == *old(self)
                } else if !(s1[pp.idx()] is Empty) {
                    r == Err::<(), MoveApplyError>(MoveApplyError::NotEmpty) && final(self).squares@ == s1 && final(self).pieces == old(self).pieces
                } else if old(self).pieces.spec_get(sym, player.color) < 1 {
                    r == Err::<(), MoveApplyError>(MoveApplyError::NoPieceLeft) && final(self).squares@ == s1 && final(self).pieces == old(self).pieces
                } else {
                    &&& r is Ok
                    &&& final(self).squares@ == s1.update(
                        pp.idx(),
                        Square::Piece(sym, player.color),
                    )
                    &&& final(self).pieces.spec_get(sym, player.color)
                        == old(self).pieces.spec_get(sym, player.color) - 1
                    &&& forall|s2: Symbol, c2: Color|
                        !(s2 == sym && c2 == player.color) ==> final(self).pieces.spec_get(s2, c2)
                            == old(self).pieces.spec_get(s2, c2)
                }
            }),
    {
        let ghost b0 = *old(self);
        let data = moves.into_data();
        let cur = *self.get(data.totem_old_pos);
        if cur != Square::Totem(data.symbol) {
            return Err(MoveApplyError::WrongTotemPosition);
        }
        self.swap(data.totem_old_pos, data.totem_new_pos);
        proof {
            lemma_swap_preserves_wf(b0, *self, data.totem_old_pos, data.totem_new_pos);
        }
        let ghost b1 = *self;
        let res = self.place(data.piece_pos, data.symbol, player.color());
        proof {
            if res is Ok {
                lemma_place_preserves_wf(b1, *self, data.piece_pos, data.symbol, player.color);
            }
        }
        res
    }
}

impl Default for Board {
    /// A fresh board: all cells empty but the two totems, full stocks.
    fn default() -> (r: Board)
        ensures
            r.wf(),
            r.squares@ == initial_squares(),
            r.pieces == Pieces::initial(),
    {
        let mut squares: Vec<Square> = Vec::new();
        let mut i: usize = 0;
        while i < 36
            invariant
                squares@.len() == i,
                i <= 36,
                forall|j: int| 0 <= j < i ==> squares@[j] == Square::Empty,
            decreases 36 - i,
        {
            squares.push(Square::Empty);
            i = i + 1;
        }
        squares.set(14, Square::Totem(Symbol::X));
        squares.set(21, Square::Totem(Symbol::O));
        let r = Board {
            squares,
            pieces: Pieces {
                x_pink: PiecesCount(8),
                x_black: PiecesCount(8),
                o_pink: PiecesCount(8),
                o_black: PiecesCount(8),
            },
        };
        proof {
            assert(r.squares@ =~= initial_squares());
            lemma_board_initial_wf(r);
        }
        r
    }
}

/// A board whose squares and stocks are in the initial configuration
/// satisfies the board invariant.
proof fn lemma_board_initial_wf(b: Board)
    requires
        b.squares@ == initial_squares(),
        b.pieces == Pieces::initial(),
    ensures
        b.wf(),
{
    let px = Position { x: 2, y: 2 };
    let po = Position { x: 3, y: 3 };
    assert(b.totem_at(Symbol::X, px));
    assert(b.totem_at(Symbol::O, po));
    assert forall|p: Position, q: Position|
        b.totem_at(Symbol::X, p) && b.totem_at(Symbol::X, q) implies p == q by {
        assert(p.idx() == 14 && q.idx() == 14);
        lemma_idx_injective(p, q);
    }
    assert forall|p: Position, q: Position|
        b.totem_at(Symbol::O, p) && b.totem_at(Symbol::O, q) implies p == q by {
        assert(p.idx() == 21 && q.idx() == 21);
        lemma_idx_injective(p, q);
    }
    assert forall|s: Symbol, c: Color|
        count_sq(b.squares@, Square::Piece(s, c)) + b.pieces.spec_get(s, c) == 8 by {
        lemma_count_absent(b.squares@, Square::Piece(s, c));
        match (s, c) {
            (Symbol::X, Color::Pink) => {},
            (Symbol::X, Color::Black) => {},
            (Symbol::O, Color::Pink) => {},
            (Symbol::O, Color::Black) => {},
        }
    }
}

} // verus!
