use vstd::prelude::*;

verus! {

/// A cell coordinate on the 6x6 board. `x` is the column (0 is the left
/// edge), `y` is the row (0 is the top edge). A value is only meaningful
/// when `wf()` holds; every function of the library keeps that invariant.
#[derive(Clone, Copy, Debug, PartialEq, Eq, Structural)]
pub struct Position {
    pub x: u8,
    pub y: u8,
}

impl Position {
    /// Both coordinates lie on the board.
    pub open spec fn wf(self) -> bool {
        self.x < 6 && self.y < 6
    }

    /// Row-major index of the cell, in `[0, 36)` for well-formed positions.
    pub open spec fn idx(self) -> int {
        self.x + self.y * 6
    }

    /// `q` is one orthogonal step away from `self`.
    pub open spec fn adjacent(self, q: Position) -> bool {
        &&& self.wf()
        &&& q.wf()
        &&& {
            ||| q.x == self.x + 1 && q.y == self.y
            ||| self.x == q.x + 1 && q.y == self.y
            ||| q.x == self.x && q.y == self.y + 1
            ||| q.x == self.x && self.y == q.y + 1
        }
    }

    /// `q` is a different cell on the same row or the same column as `self`.
    pub open spec fn aligned(self, q: Position) -> bool {
        &&& self.wf()
        &&& q.wf()
        &&& q != self
        &&& (q.x == self.x || q.y == self.y)
    }

    /// `r` lies strictly between `self` and `q` on their shared row or
    /// column.
    pub open spec fn between(self, q: Position, r: Position) -> bool {
        &&& r.wf()
        &&& {
            ||| self.y == q.y && r.y == self.y && (self.x < r.x < q.x || q.x < r.x < self.x)
            ||| self.x == q.x && r.x == self.x && (self.y < r.y < q.y || q.y < r.y < self.y)
        }
    }

    /// Constructs an on-board position; coordinates outside the board are
    /// ruled out by the precondition.
    pub fn new(x: u8, y: u8) -> (r: Position)
        requires
            x < 6,
            y < 6,
        ensures
            r == (Position { x, y }),
    {
        Position { x, y }
    }

    /// Bounds-checked construction: `None` exactly when the coordinates fall
    /// outside the board.
    pub fn try_new(x: u8, y: u8) -> (r: Option<Position>)
        ensures
            x < 6 && y < 6 ==> r == Some(Position { x, y }),
            !(x < 6 && y < 6) ==> r is None,
    {
        if x < 6 && y < 6 {
            Some(Position { x, y })
        } else {
            None
        }
    }

    /// The column, as an index.
    pub fn x(&self) -> (r: usize)
        ensures
            r == self.x,
    {
        self.x as usize
    }

    /// The row, as an index.
    pub fn y(&self) -> (r: usize)
        ensures
            r == self.y,
    {
        self.y as usize
    }

    /// The neighbor one column to the right, or `None` at the right edge.
    pub fn right(&self) -> (r: Option<Position>)
        requires
            self.wf(),
        ensures
            self.x < 5 ==> r == Some(Position { x: (self.x + 1) as u8, y: self.y }),
            self.x == 5 ==> r is None,
    {
        if self.x == 5 {
            None
        } else {
            Some(Position { x: self.x + 1, y: self.y })
        }
    }

    /// The neighbor one row up (towards row 0), or `None` at the top edge.
    pub fn up(&self) -> (r: Option<Position>)
        requires
            self.wf(),
        ensures
            self.y > 0 ==> r == Some(Position { x: self.x, y: (self.y - 1) as u8 }),
            self.y == 0 ==> r is None,
    {
        if self.y == 0 {
            None
        } else {
            Some(Position { x: self.x, y: self.y - 1 })
        }
    }

    /// The neighbor one column to the left, or `None` at the left edge.
    pub fn left(&self) -> (r: Option<Position>)
        requires
            self.wf(),
        ensures
            self.x > 0 ==> r == Some(Position { x: (self.x - 1) as u8, y: self.y }),
            self.x == 0 ==> r is None,
    {
        if self.x == 0 {
            None
        } else {
            Some(Position { x: self.x - 1, y: self.y })
        }
    }

    /// The neighbor one row down, or `None` at the bottom edge.
    pub fn down(&self) -> (r: Option<Position>)
        requires
            self.wf(),
        ensures
            self.y < 5 ==> r == Some(Position { x: self.x, y: (self.y + 1) as u8 }),
            self.y == 5 ==> r is None,
    {
        if self.y == 5 {
            None
        } else {
            Some(Position { x: self.x, y: self.y + 1 })
        }
    }

    /// The ray of positions strictly to the right of `self`, nearest first.
    pub fn iter_right(&self) -> (r: Vec<Position>)
        requires
            self.wf(),
        ensures
            r@.len() == 5 - self.x,
            forall|i: int|
                0 <= i < r@.len() ==> r@[i] == (Position { x: (self.x + 1 + i) as u8, y: self.y }),
    {
        let mut v: Vec<Position> = Vec::new();
        let mut x: u8 = self.x;
        while x < 5
            invariant
                self.x <= x <= 5,
                v@.len() == x - self.x,
                forall|i: int|
                    0 <= i < v@.len() ==> v@[i] == (Position {
                        x: (self.x + 1 + i) as u8,
                        y: self.y,
                    }),
            decreases 5 - x,
        {
            x = x + 1;
            v.push(Position { x, y: self.y });
        }
        v
    }

    /// The ray of positions strictly above `self`, nearest first.
    pub fn iter_up(&self) -> (r: Vec<Position>)
        requires
            self.wf(),
        ensures
            r@.len() == self.y,
            forall|i: int|
                0 <= i < r@.len() ==> r@[i] == (Position { x: self.x, y: (self.y - 1 - i) as u8 }),
    {
        let mut v: Vec<Position> = Vec::new();
        let mut y: u8 = self.y;
        while y > 0
            invariant
                y <= self.y < 6,
                v@.len() == self.y - y,
                forall|i: int|
                    0 <= i < v@.len() ==> v@[i] == (Position {
                        x: self.x,
                        y: (self.y - 1 - i) as u8,
                    }),
            decreases y,
        {
            y = y - 1;
            v.push(Position { x: self.x, y });
        }
        v
    }

    /// The ray of positions strictly to the left of `self`, nearest first.
    pub fn iter_left(&self) -> (r: Vec<Position>)
        requires
            self.wf(),
        ensures
            r@.len() == self.x,
            forall|i: int|
                0 <= i < r@.len() ==> r@[i] == (Position { x: (self.x - 1 - i) as u8, y: self.y }),
    {
        let mut v: Vec<Position> = Vec::new();
        let mut x: u8 = self.x;
        while x > 0
            invariant
                x <= self.x < 6,
                v@.len() == self.x - x,
                forall|i: int|
                    0 <= i < v@.len() ==> v@[i] == (Position {
                        x: (self.x - 1 - i) as u8,
                        y: self.y,
                    }),
            decreases x,
        {
            x = x - 1;
            v.push(Position { x, y: self.y });
        }
        v
    }

    /// The ray of positions strictly below `self`, nearest first.
    pub fn iter_down(&self) -> (r: Vec<Position>)
        requires
            self.wf(),
        ensures
            r@.len() == 5 - self.y,
            forall|i: int|
                0 <= i < r@.len() ==> r@[i] == (Position { x: self.x, y: (self.y + 1 + i) as u8 }),
    {
        let mut v: Vec<Position> = Vec::new();
        let mut y: u8 = self.y;
        while y < 5
            invariant
                self.y <= y <= 5,
                v@.len() == y - self.y,
                forall|i: int|
                    0 <= i < v@.len() ==> v@[i] == (Position {
                        x: self.x,
                        y: (self.y + 1 + i) as u8,
                    }),
            decreases 5 - y,
        {
            y = y + 1;
            v.push(Position { x: self.x, y });
        }
        v
    }
}

/// The `k`-th cell (0-based) of the `i`-th four-in-line window. Windows 0 to
/// 17 run down a column, windows 18 to 35 run along a row.
pub open spec fn group_cell(i: int, k: int) -> Position {
    if i < 18 {
        Position { x: (i / 3) as u8, y: (i % 3 + k) as u8 }
    } else {
        Position { x: ((i - 18) % 3 + k) as u8, y: ((i - 18) / 3) as u8 }
    }
}

/// The `i`-th four-in-line window as a sequence of four cells.
pub open spec fn group_seq(i: int) -> Seq<Position> {
    Seq::new(4, |k: int| group_cell(i, k))
}

impl Position {
    /// All 36 four-in-line windows of the board: for each of the 6 columns
    /// the 3 vertical windows, then for each of the 6 rows the 3 horizontal
    /// windows.
    pub fn four_latteral_groups() -> (r: Vec<[Position; 4]>)
        ensures
            r@.len() == 36,
            forall|i: int| 0 <= i < 36 ==> #[trigger] r@[i]@ == group_seq(i),
    {
        let mut v: Vec<[Position; 4]> = Vec::new();
        let mut i: u8 = 0;
        while i < 18
            invariant
                i <= 18,
                v@.len() == i,
                forall|j: int| 0 <= j < i ==> #[trigger] v@[j]@ == group_seq(j),
            decreases 18 - i,
        {
            let col = i / 3;
            let s = i % 3;
            let g = [
                Position { x: col, y: s },
                Position { x: col, y: s + 1 },
                Position { x: col, y: s + 2 },
                Position { x: col, y: s + 3 },
            ];
            proof {
                assert(g@ =~= group_seq(i as int));
            }
            v.push(g);
            i = i + 1;
        }
        while i < 36
            invariant
                18 <= i <= 36,
                v@.len() == i,
                forall|j: int| 0 <= j < i ==> #[trigger] v@[j]@ == group_seq(j),
            decreases 36 - i,
        {
            let row = (i - 18) / 3;
            let s = (i - 18) % 3;
            let g = [
                Position { x: s, y: row },
                Position { x: s + 1, y: row },
                Position { x: s + 2, y: row },
                Position { x: s + 3, y: row },
            ];
            proof {
                assert(g@ =~= group_seq(i as int));
            }
            v.push(g);
            i = i + 1;
        }
        v
    }
}

/// Every cell of every four-in-line window lies on the board.
pub proof fn lemma_group_cells_wf(i: int)
    requires
        0 <= i < 36,
    ensures
        forall|k: int| 0 <= k < 4 ==> (#[trigger] group_cell(i, k)).wf(),
{
}

/// Two well-formed positions with the same row-major index are the same
/// cell.
pub proof fn lemma_idx_injective(p: Position, q: Position)
    requires
        p.wf(),
        q.wf(),
        p.idx() == q.idx(),
    ensures
        p == q,
{
}

} // verus!
