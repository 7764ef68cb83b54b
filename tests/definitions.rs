use tile_puzzles::geometry::Position;
use tile_puzzles::puzzles::{
    bool_true, tiles_from_raw_positions, PuzzleDefinition, Shape, ShapeDefinition,
    TileDefinition, TileType, MAX_COORD,
};

fn rect(pos: Option<Position>, interactable: bool, w: usize, h: usize) -> ShapeDefinition {
    ShapeDefinition { pos, interactable, tiles: Shape::Rect(w, h) }
}

#[test]
fn rectangle_expands_column_by_column() {
    let tiles = rect(None, true, 2, 3).get_tiles();
    let positions: Vec<Position> = tiles.iter().map(|t| t.pos).collect();
    assert_eq!(
        positions,
        vec![
            Position(0, 0),
            Position(0, 1),
            Position(0, 2),
            Position(1, 0),
            Position(1, 1),
            Position(1, 2)
        ]
    );
    assert!(tiles.iter().all(|t| t.tile_type.is_none()));
}

#[test]
fn rectangle_has_one_tile_per_cell() {
    for w in 1..6 {
        for h in 1..6 {
            let tiles = rect(None, true, w, h).get_tiles();
            assert_eq!(tiles.len(), w * h);
            for x in 0..w {
                for y in 0..h {
                    let count = tiles.iter().filter(|t| t.pos == Position(x, y)).count();
                    assert_eq!(count, 1);
                }
            }
            assert!(tiles.iter().all(|t| t.pos.0 < w && t.pos.1 < h && t.tile_type.is_none()));
        }
    }
}

#[test]
fn empty_rectangle_has_no_tiles() {
    assert!(rect(None, true, 0, 4).get_tiles().is_empty());
    assert!(rect(None, true, 4, 0).get_tiles().is_empty());
}

#[test]
fn explicit_tiles_are_kept_as_given() {
    let given = vec![
        TileDefinition { pos: Position(2, 1), tile_type: Some(TileType::Background) },
        TileDefinition { pos: Position(0, 0), tile_type: None },
    ];
    let shape = ShapeDefinition { pos: None, interactable: true, tiles: Shape::RawTiles(given.clone()) };
    assert_eq!(shape.get_tiles(), given);
}

#[test]
fn defaults() {
    assert!(bool_true());
    assert_eq!(TileType::from_interactable(true), TileType::Foreground);
    assert_eq!(TileType::from_interactable(false), TileType::Background);
}

#[test]
fn raw_positions_are_rebased_to_their_corner() {
    let tiles = tiles_from_raw_positions(&vec![Position(3, 5), Position(4, 2), Position(6, 4)]);
    let positions: Vec<Position> = tiles.iter().map(|t| t.pos).collect();
    assert_eq!(positions, vec![Position(0, 3), Position(1, 0), Position(3, 2)]);
    assert!(tiles_from_raw_positions(&vec![]).is_empty());
}

#[test]
fn limits_are_checked() {
    let ok = PuzzleDefinition {
        name: "ok".to_string(),
        shapes: vec![rect(Some(Position(MAX_COORD, 0)), true, MAX_COORD, 1)],
    };
    assert!(ok.fits_limits());
    let too_wide = PuzzleDefinition {
        name: "wide".to_string(),
        shapes: vec![rect(None, true, MAX_COORD + 1, 1)],
    };
    assert!(!too_wide.fits_limits());
    let too_far = PuzzleDefinition {
        name: "far".to_string(),
        shapes: vec![ShapeDefinition {
            pos: None,
            interactable: true,
            tiles: Shape::RawTiles(vec![TileDefinition { pos: Position(0, MAX_COORD + 1), tile_type: None }]),
        }],
    };
    assert!(!too_far.fits_limits());
    let misplaced = PuzzleDefinition {
        name: "misplaced".to_string(),
        shapes: vec![rect(Some(Position(MAX_COORD + 1, 0)), true, 1, 1)],
    };
    assert!(!misplaced.fits_limits());
}
