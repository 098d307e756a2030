use oxono::position::Position;
use oxono::symbol::Symbol;

#[test]
fn construction_and_coordinates() {
    let p = Position::new(4, 1);
    assert_eq!(p.x(), 4);
    assert_eq!(p.y(), 1);
    assert_eq!(Position::try_new(5, 5), Some(Position::new(5, 5)));
    assert_eq!(Position::try_new(6, 0), None);
    assert_eq!(Position::try_new(0, 6), None);
}

#[test]
fn neighbors_stop_at_the_edges() {
    let corner = Position::new(0, 0);
    assert_eq!(corner.left(), None);
    assert_eq!(corner.up(), None);
    assert_eq!(corner.right(), Some(Position::new(1, 0)));
    assert_eq!(corner.down(), Some(Position::new(0, 1)));
    let other = Position::new(5, 5);
    assert_eq!(other.right(), None);
    assert_eq!(other.down(), None);
    assert_eq!(other.left(), Some(Position::new(4, 5)));
    assert_eq!(other.up(), Some(Position::new(5, 4)));
}

#[test]
fn rays_enumerate_to_the_edge() {
    let p = Position::new(2, 3);
    assert_eq!(
        p.iter_right(),
        vec![Position::new(3, 3), Position::new(4, 3), Position::new(5, 3)]
    );
    assert_eq!(p.iter_left(), vec![Position::new(1, 3), Position::new(0, 3)]);
    assert_eq!(
        p.iter_up(),
        vec![Position::new(2, 2), Position::new(2, 1), Position::new(2, 0)]
    );
    assert_eq!(p.iter_down(), vec![Position::new(2, 4), Position::new(2, 5)]);
    assert!(Position::new(5, 0).iter_right().is_empty());
    assert!(Position::new(0, 0).iter_up().is_empty());
}

#[test]
fn thirty_six_windows_cover_columns_then_rows() {
    let groups = Position::four_latteral_groups();
    assert_eq!(groups.len(), 36);
    // First window: column 0, rows 0 through 3.
    assert_eq!(
        groups[0],
        [
            Position::new(0, 0),
            Position::new(0, 1),
            Position::new(0, 2),
            Position::new(0, 3),
        ]
    );
    // Third window of a column starts at row 2.
    assert_eq!(
        groups[2],
        [
            Position::new(0, 2),
            Position::new(0, 3),
            Position::new(0, 4),
            Position::new(0, 5),
        ]
    );
    // Window 18 is the first horizontal one: row 0, columns 0 through 3.
    assert_eq!(
        groups[18],
        [
            Position::new(0, 0),
            Position::new(1, 0),
            Position::new(2, 0),
            Position::new(3, 0),
        ]
    );
    // The last window: row 5, columns 2 through 5.
    assert_eq!(
        groups[35],
        [
            Position::new(2, 5),
            Position::new(3, 5),
            Position::new(4, 5),
            Position::new(5, 5),
        ]
    );
}

#[test]
fn opposite_symbol() {
    assert_eq!(Symbol::X.opposite(), Symbol::O);
    assert_eq!(Symbol::O.opposite(), Symbol::X);
}
