use vstd::prelude::*;

verus! {

/// The symbol carried by a totem or a piece: `X` or `O`.
#[derive(Clone, Copy, Debug, PartialEq, Eq, Structural)]
pub enum Symbol {
    X,
    O,
}

impl Symbol {
    /// The other symbol.
    pub fn opposite(self) -> (r: Symbol)
        ensures
            self == Symbol::X ==> r == Symbol::O,
            self == Symbol::O ==> r == Symbol::X,
    {
        match self {
            Symbol::X => Symbol::O,
            Symbol::O => Symbol::X,
        }
    }
}

/// A player color: every placed piece carries the color of the player who
/// placed it.
#[derive(Clone, Copy, Debug, PartialEq, Eq, Structural)]
pub enum Color {
    Pink,
    Black,
}

} // verus!
