use tile_puzzles::geometry::{snap_saturate, Position, MAX_GRID_COORD};

#[test]
fn position_arithmetic() {
    let a = Position(3, 7);
    let b = Position(5, 2);
    assert_eq!(a.add(b), Position(8, 9));
    assert_eq!(b.sub(Position(1, 2)), Position(4, 0));
    assert_eq!(Position::min(a, b), Position(3, 2));
    assert_eq!(Position::max(a, b), Position(5, 7));
}

#[test]
fn snapping_rounds_to_nearest_quantum() {
    assert_eq!(snap_saturate(0), 0);
    assert_eq!(snap_saturate(2), 0);
    assert_eq!(snap_saturate(3), 5);
    assert_eq!(snap_saturate(7), 5);
    assert_eq!(snap_saturate(8), 10);
    assert_eq!(snap_saturate(-2), 0);
    assert_eq!(snap_saturate(-3), -5);
    assert_eq!(snap_saturate(-8), -10);
    assert_eq!(snap_saturate(1234), 1235);
}

#[test]
fn snapping_saturates_at_the_largest_grid_coordinate() {
    assert_eq!(snap_saturate(i64::MAX as i128 + 100), MAX_GRID_COORD);
    assert_eq!(snap_saturate(i64::MIN as i128 - 100), -MAX_GRID_COORD);
}
