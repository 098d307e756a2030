use vstd::prelude::*;
use crate::symbol::Color;

verus! {

/// One of the two players, identified by color.
#[derive(Clone, Copy, Debug, PartialEq, Eq, Structural)]
pub struct Player {
    pub color: Color,
}

impl Player {
    /// The pink player.
    fn pink() -> (r: Player)
        ensures
            r.color == Color::Pink,
    {
        Player { color: Color::Pink }
    }

    /// The black player.
    fn black() -> (r: Player)
        ensures
            r.color == Color::Black,
    {
        Player { color: Color::Black }
    }

    /// The player's color.
    pub fn color(&self) -> (r: Color)
        ensures
            r == self.color,
    {
        self.color
    }
}

/// The two players in turn order: the first one is the active player.
#[derive(Clone, Copy, Debug, PartialEq, Eq, Structural)]
pub struct Players {
    pub first: Player,
    pub second: Player,
}

impl Players {
    /// The active player.
    pub fn current(&self) -> (r: &Player)
        ensures
            *r == self.first,
    {
        &self.first
    }

    /// Rotates the turn: the waiting player becomes active.
    pub fn turn(&mut self)
        ensures
            final(self).first == old(self).second,
            final(self).second == old(self).first,
    {
        let t = self.first;
        self.first = self.second;
        self.second = t;
    }
}

impl Default for Players {
    /// Pink moves first.
    fn default() -> (r: Players)
        ensures
            r.first.color == Color::Pink,
            r.second.color == Color::Black,
    {
        Players { first: Player::pink(), second: Player::black() }
    }
}

} // verus!
