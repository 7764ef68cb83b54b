use tile_puzzles::geometry::{IVector2, Position};
use tile_puzzles::puzzle::Puzzle;
use tile_puzzles::puzzles::{PuzzleDefinition, Shape, ShapeDefinition};

fn rect(pos: Option<Position>, interactable: bool, w: usize, h: usize) -> ShapeDefinition {
    ShapeDefinition { pos, interactable, tiles: Shape::Rect(w, h) }
}

fn matched() -> Puzzle {
    let d = PuzzleDefinition {
        name: "matched".to_string(),
        shapes: vec![
            rect(Some(Position(0, 0)), false, 2, 1),
            rect(Some(Position(0, 0)), true, 1, 1),
            rect(Some(Position(1, 0)), true, 1, 1),
        ],
    };
    Puzzle::from_definition(&d, 500)
}

fn v(x: i64, y: i64) -> IVector2 {
    IVector2 { x, y }
}

#[test]
fn matched_puzzle_is_valid() {
    assert!(matched().validate());
}

#[test]
fn validation_is_repeatable() {
    let p = matched();
    let first = p.validate();
    let second = p.validate();
    assert_eq!(first, second);
    let mut q = matched();
    q.tile_input_event(1, 0, true, v(0, 0));
    q.tile_input_event(1, 0, false, v(5, 0));
    assert_eq!(q.validate(), q.validate());
}

#[test]
fn moving_a_shape_one_quantum_breaks_the_match() {
    let mut p = matched();
    p.tile_input_event(1, 0, true, v(100, 100));
    assert_eq!(p.shapes[1].dragged_position(v(105, 100)), v(5, 0));
    p.tile_input_event(1, 0, false, v(105, 100));
    assert_eq!(p.shapes[1].pos, v(5, 0));
    assert!(p.shapes[1].drag_pos_start.is_none());
    assert!(!p.validate());
    p.tile_input_event(1, 0, true, v(10, 10));
    p.tile_input_event(1, 0, false, v(5, 9));
    assert_eq!(p.shapes[1].pos, v(0, 0));
    assert!(p.validate());
}

#[test]
fn uncovered_background_fails() {
    let d = PuzzleDefinition {
        name: "gap".to_string(),
        shapes: vec![rect(Some(Position(0, 0)), false, 2, 1), rect(Some(Position(0, 0)), true, 1, 1)],
    };
    assert!(!Puzzle::from_definition(&d, 500).validate());
}

#[test]
fn stray_foreground_fails() {
    let d = PuzzleDefinition {
        name: "stray".to_string(),
        shapes: vec![rect(Some(Position(0, 0)), false, 1, 1), rect(Some(Position(0, 0)), true, 2, 1)],
    };
    assert!(!Puzzle::from_definition(&d, 500).validate());
}

#[test]
fn stacked_foregrounds_on_one_background_pass() {
    let d = PuzzleDefinition {
        name: "stacked".to_string(),
        shapes: vec![
            rect(Some(Position(3, 3)), false, 1, 1),
            rect(Some(Position(3, 3)), true, 1, 1),
            rect(Some(Position(3, 3)), true, 1, 1),
            rect(Some(Position(3, 3)), true, 1, 1),
        ],
    };
    assert!(Puzzle::from_definition(&d, 500).validate());
}

#[test]
fn empty_puzzle_is_valid() {
    let d = PuzzleDefinition { name: "none".to_string(), shapes: vec![] };
    assert!(Puzzle::from_definition(&d, 500).validate());
    let art = PuzzleDefinition::from_ascii_art("blank".to_string(), "  ".to_string());
    assert!(Puzzle::from_definition(&art, 500).validate());
}

#[test]
fn background_tiles_ignore_the_pointer() {
    let mut p = matched();
    p.tile_input_event(0, 0, true, v(0, 0));
    assert!(p.shapes[0].drag_pos_start.is_none());
    p.tile_input_event(0, 0, false, v(40, 40));
    assert_eq!(p.shapes[0].pos, v(0, 0));
    p.tile_input_event(9, 0, true, v(0, 0));
    p.tile_input_event(1, 9, true, v(0, 0));
    assert!(p.shapes.iter().all(|s| s.drag_pos_start.is_none()));
}

#[test]
fn release_without_press_keeps_the_shape() {
    let mut p = matched();
    p.tile_input_event(1, 0, false, v(77, 77));
    assert_eq!(p.shapes[1].pos, v(0, 0));
    assert_eq!(p.shapes[1].dragged_position(v(300, 300)), v(0, 0));
}

#[test]
fn drag_moves_by_pointer_travel_snapped() {
    let mut p = matched();
    p.tile_input_event(2, 0, true, v(10, 10));
    assert_eq!(p.shapes[2].drag_pos_start, Some((v(50, 0), v(10, 10))));
    assert_eq!(p.shapes[2].dragged_position(v(18, 7)), v(60, -5));
    p.tile_input_event(2, 0, false, v(-41, 10));
    assert_eq!(p.shapes[2].pos, v(0, 0));
}
