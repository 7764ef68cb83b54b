use tile_puzzles::colors::shape_colors;
use tile_puzzles::geometry::{IVector2, Position};
use tile_puzzles::puzzle::Puzzle;
use tile_puzzles::puzzles::{PuzzleDefinition, Shape, ShapeDefinition, TileDefinition, TileType};
use tile_puzzles::shape::Shape as RunningShape;

fn rect(pos: Option<Position>, interactable: bool, w: usize, h: usize) -> ShapeDefinition {
    ShapeDefinition { pos, interactable, tiles: Shape::Rect(w, h) }
}

fn sample() -> PuzzleDefinition {
    PuzzleDefinition {
        name: "sample".to_string(),
        shapes: vec![
            rect(None, false, 2, 2),
            rect(None, true, 1, 2),
            rect(None, true, 3, 1),
            rect(None, true, 1, 1),
            rect(None, true, 1, 1),
            rect(Some(Position(4, 4)), true, 1, 1),
            rect(None, true, 1, 1),
        ],
    }
}

fn at(s: &RunningShape) -> (i64, i64) {
    (s.pos.x, s.pos.y)
}

#[test]
fn columns_fill_and_wrap() {
    let p = Puzzle::from_definition(&sample(), 200);
    assert_eq!(p.shapes.len(), 7);
    assert_eq!(at(&p.shapes[0]), (30, 30));
    assert_eq!(at(&p.shapes[1]), (30, 30));
    assert_eq!(at(&p.shapes[2]), (30, 135));
    assert_eq!(at(&p.shapes[3]), (30, 190));
    assert_eq!(at(&p.shapes[4]), (185, 30));
    assert_eq!(at(&p.shapes[5]), (200, 200));
    assert_eq!(at(&p.shapes[6]), (185, 85));
    assert_eq!(p.shapes[0].size, Position(2, 2));
    assert_eq!(p.shapes[1].size, Position(1, 2));
    assert_eq!(p.shapes[2].size, Position(3, 1));
    assert!(p.shapes.iter().all(|s| s.drag_pos_start.is_none()));
}

#[test]
fn tall_puzzles_use_several_columns() {
    let tall = PuzzleDefinition {
        name: "tall".to_string(),
        shapes: (0..6).map(|_| rect(None, true, 1, 3)).collect(),
    };
    let p = Puzzle::from_definition(&tall, 400);
    let xs: Vec<i64> = p.shapes.iter().map(|s| s.pos.x).collect();
    assert!(xs.windows(2).all(|w| w[0] <= w[1]));
    assert!(xs[xs.len() - 1] > xs[0]);
    let roomy = Puzzle::from_definition(&tall, 100_000);
    assert!(roomy.shapes.iter().all(|s| s.pos.x == 30));
}

#[test]
fn same_definition_same_layout() {
    let a = Puzzle::from_definition(&sample(), 200);
    let b = Puzzle::from_definition(&sample(), 200);
    for (s, t) in a.shapes.iter().zip(b.shapes.iter()) {
        assert_eq!(s.pos, t.pos);
        assert_eq!(s.size, t.size);
        assert_eq!(s.color, t.color);
        assert_eq!(s.tiles, t.tiles);
    }
}

#[test]
fn fixed_shapes_ignore_viewport_height() {
    for h in [0, 50, 200, 1_000, 1_000_000] {
        let p = Puzzle::from_definition(&sample(), h);
        assert_eq!(p.shapes[5].pos, IVector2 { x: 200, y: 200 });
    }
}

#[test]
fn colours_are_a_fixed_rearrangement() {
    let c = shape_colors(10);
    let mut sorted = c.clone();
    sorted.sort();
    assert_eq!(sorted, (0..10).collect::<Vec<usize>>());
    assert_ne!(c, (0..10).collect::<Vec<usize>>());
    assert_eq!(c, shape_colors(10));
    assert!(shape_colors(0).is_empty());
    let p = Puzzle::from_definition(&sample(), 200);
    let colors: Vec<usize> = p.shapes.iter().map(|s| s.color).collect();
    assert_eq!(colors, shape_colors(7));
}

#[test]
fn tiles_take_the_shape_default_unless_typed() {
    let d = PuzzleDefinition {
        name: "typed".to_string(),
        shapes: vec![
            ShapeDefinition {
                pos: None,
                interactable: true,
                tiles: Shape::RawTiles(vec![
                    TileDefinition { pos: Position(1, 1), tile_type: None },
                    TileDefinition { pos: Position(2, 1), tile_type: Some(TileType::Background) },
                ]),
            },
            rect(None, false, 1, 1),
        ],
    };
    let p = Puzzle::from_definition(&d, 500);
    assert_eq!(p.shapes[0].tiles[0].tile_type, TileType::Foreground);
    assert_eq!(p.shapes[0].tiles[1].tile_type, TileType::Background);
    assert_eq!(p.shapes[0].tiles[1].pos, Position(2, 1));
    assert_eq!(p.shapes[1].tiles[0].tile_type, TileType::Background);
    // the box of the first shape starts at its tile (1, 1)
    assert_eq!(at(&p.shapes[0]), (5 - 50 + 25, 5 - 50 + 25));
    assert_eq!(p.shapes[0].size, Position(2, 1));
}

#[test]
fn from_idx_picks_from_the_catalog() {
    let catalog = vec![
        PuzzleDefinition { name: "one".to_string(), shapes: vec![rect(None, true, 1, 1)] },
        sample(),
    ];
    let p = Puzzle::from_idx(&catalog, 1, 200);
    assert_eq!(p.shapes.len(), 7);
    assert_eq!(at(&p.shapes[4]), (185, 30));
}

#[test]
fn art_puzzles_lay_out() {
    let d = PuzzleDefinition::from_ascii_art("art".to_string(), "AB\nAB".to_string());
    assert!(d.fits_limits());
    let p = Puzzle::from_definition(&d, 1_000);
    assert_eq!(p.shapes.len(), 3);
    assert_eq!(at(&p.shapes[0]), (30, 30));
    assert_eq!(p.shapes[0].size, Position(2, 2));
}
