use vstd::prelude::*;
use crate::board::MoveApplyError;
use crate::moves::MovesBuilderError;
use crate::position::Position;
use crate::symbol::Symbol;

verus! {

/// What a key press means to the interactive board.
pub enum UserMessage {
    Quit,
    Select,
    Right,
    Up,
    Left,
    Down,
    Nothing,
}

/// A failure to surface to the player: either the staged construction or
/// the application of a move was rejected.
#[derive(Clone, Copy, Debug, PartialEq, Eq, Structural)]
pub enum MoveError {
    MoveBuilderError(MovesBuilderError),
    MoveApplyError(MoveApplyError),
}

/// The display name of a move-construction error.
pub open spec fn builder_error_text(e: MovesBuilderError) -> Seq<char> {
    match e {
        MovesBuilderError::TotemNotFound => "TotemNotFound"@,
        MovesBuilderError::OutOfBoard => "OutOfBoard"@,
        MovesBuilderError::NoPieceLeft => "NoPieceLeft"@,
        MovesBuilderError::InvalidTotemMove => "InvalidTotemMove"@,
        MovesBuilderError::InvalidPiecePlacement => "InvalidPiecePlacement"@,
    }
}

/// The display name of a move-application error.
pub open spec fn apply_error_text(e: MoveApplyError) -> Seq<char> {
    match e {
        MoveApplyError::WrongTotemPosition => "WrongTotemPosition"@,
        MoveApplyError::NotEmpty => "NotEmpty"@,
        MoveApplyError::NoPieceLeft => "NoPieceLeft"@,
    }
}

/// The display name of a surfaced error.
pub open spec fn error_text(e: MoveError) -> Seq<char> {
    match e {
        MoveError::MoveBuilderError(b) => builder_error_text(b),
        MoveError::MoveApplyError(a) => apply_error_text(a),
    }
}

/// The selection state of the interactive board: the cursor, the choices
/// made so far towards a move, and a pending error message.
pub struct UIState {
    pub selected_pos: Option<Position>,
    pub selected_symbol: Option<Symbol>,
    pub selected_totem_pos: Option<Position>,
    pub error: Option<MoveError>,
}

impl UIState {
    /// Clears every recorded choice, keeping a pending error.
    pub fn reset_selection(&mut self)
        ensures
            final(self).selected_pos is None,
            final(self).selected_symbol is None,
            final(self).selected_totem_pos is None,
            final(self).error == old(self).error,
    {
        self.selected_pos = None;
        self.selected_symbol = None;
        self.selected_totem_pos = None;
    }

    /// The cursor cell, if any.
    pub fn selected_pos(&self) -> (r: Option<Position>)
        ensures
            r == self.selected_pos,
    {
        self.selected_pos
    }

    /// The chosen symbol, if any.
    pub fn selected_symbol(&self) -> (r: Option<Symbol>)
        ensures
            r == self.selected_symbol,
    {
        self.selected_symbol
    }

    /// The chosen totem destination, if any.
    pub fn selected_totem_pos(&self) -> (r: Option<Position>)
        ensures
            r == self.selected_totem_pos,
    {
        self.selected_totem_pos
    }

    /// The pending error rendered as text, if any.
    pub fn error_msg(&self) -> (r: Option<String>)
        ensures
            match r {
                Some(s) => self.error matches Some(e) && s@ == error_text(e),
                None => self.error is None,
            },
    {
        match &self.error {
            None => None,
            Some(MoveError::MoveBuilderError(b)) => Some(
                match b {
                    MovesBuilderError::TotemNotFound => String::from_str("TotemNotFound"),
                    MovesBuilderError::OutOfBoard => String::from_str("OutOfBoard"),
                    MovesBuilderError::NoPieceLeft => String::from_str("NoPieceLeft"),
                    MovesBuilderError::InvalidTotemMove => String::from_str("InvalidTotemMove"),
                    MovesBuilderError::InvalidPiecePlacement => String::from_str(
                        "InvalidPiecePlacement",
                    ),
                },
            ),
            Some(MoveError::MoveApplyError(a)) => Some(
                match a {
                    MoveApplyError::WrongTotemPosition => String::from_str("WrongTotemPosition"),
                    MoveApplyError::NotEmpty => String::from_str("NotEmpty"),
                    MoveApplyError::NoPieceLeft => String::from_str("NoPieceLeft"),
                },
            ),
        }
    }
}

impl Default for UIState {
    /// No cursor, no choices, no pending error.
    fn default() -> (r: UIState)
        ensures
            r.selected_pos is None,
            r.selected_symbol is None,
            r.selected_totem_pos is None,
            r.error is None,
    {
        UIState {
            selected_pos: None,
            selected_symbol: None,
            selected_totem_pos: None,
            error: None,
        }
    }
}

} // verus!
