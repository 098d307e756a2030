use oxono::board::MoveApplyError;
use oxono::moves::MovesBuilderError;
use oxono::position::Position;
use oxono::symbol::Symbol;
use oxono::ui::{MoveError, UIState};

#[test]
fn ui_state_selection_lifecycle() {
    let mut ui = UIState::default();
    assert_eq!(ui.selected_pos(), None);
    assert_eq!(ui.selected_symbol(), None);
    assert_eq!(ui.selected_totem_pos(), None);
    assert_eq!(ui.error_msg(), None);
    ui.selected_pos = Some(Position::new(1, 2));
    ui.selected_symbol = Some(Symbol::O);
    ui.selected_totem_pos = Some(Position::new(1, 3));
    ui.error = Some(MoveError::MoveApplyError(MoveApplyError::NotEmpty));
    assert_eq!(ui.selected_pos(), Some(Position::new(1, 2)));
    assert_eq!(ui.selected_symbol(), Some(Symbol::O));
    assert_eq!(ui.selected_totem_pos(), Some(Position::new(1, 3)));
    ui.reset_selection();
    assert_eq!(ui.selected_pos(), None);
    assert_eq!(ui.selected_symbol(), None);
    assert_eq!(ui.selected_totem_pos(), None);
    // A pending error survives a selection reset.
    assert_eq!(ui.error_msg(), Some(String::from("NotEmpty")));
}

#[test]
fn ui_error_messages_name_the_error() {
    let mut ui = UIState::default();
    ui.error = Some(MoveError::MoveBuilderError(MovesBuilderError::InvalidTotemMove));
    assert_eq!(ui.error_msg(), Some(String::from("InvalidTotemMove")));
    ui.error = Some(MoveError::MoveBuilderError(MovesBuilderError::NoPieceLeft));
    assert_eq!(ui.error_msg(), Some(String::from("NoPieceLeft")));
    ui.error = Some(MoveError::MoveApplyError(MoveApplyError::WrongTotemPosition));
    assert_eq!(ui.error_msg(), Some(String::from("WrongTotemPosition")));
    ui.error = None;
    assert_eq!(ui.error_msg(), None);
}
