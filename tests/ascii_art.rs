use tile_puzzles::geometry::Position;
use tile_puzzles::puzzles::{PuzzleDefinition, Shape, ShapeDefinition};

fn positions(shape: &ShapeDefinition) -> Vec<Position> {
    match &shape.tiles {
        Shape::RawTiles(tiles) => {
            assert!(tiles.iter().all(|t| t.tile_type.is_none()));
            tiles.iter().map(|t| t.pos).collect()
        }
        Shape::Rect(_, _) => panic!("art yields explicit tiles"),
    }
}

#[test]
fn two_letters_round_trip() {
    let p = PuzzleDefinition::from_ascii_art("pair".to_string(), "AB\nAB\nA ".to_string());
    assert_eq!(p.name, "pair");
    assert_eq!(p.shapes.len(), 3);
    assert!(p.shapes.iter().all(|s| s.pos.is_none()));
    assert!(!p.shapes[0].interactable);
    assert_eq!(
        positions(&p.shapes[0]),
        vec![Position(0, 0), Position(1, 0), Position(0, 1), Position(1, 1), Position(0, 2)]
    );
    assert!(p.shapes[1].interactable);
    assert_eq!(positions(&p.shapes[1]), vec![Position(0, 0), Position(0, 1), Position(0, 2)]);
    assert!(p.shapes[2].interactable);
    assert_eq!(positions(&p.shapes[2]), vec![Position(0, 0), Position(0, 1)]);
}

#[test]
fn empty_art_is_one_empty_background() {
    for art in ["", "   ", " \n\t \r\n"] {
        let p = PuzzleDefinition::from_ascii_art("empty".to_string(), art.to_string());
        assert_eq!(p.shapes.len(), 1);
        assert!(!p.shapes[0].interactable);
        assert!(positions(&p.shapes[0]).is_empty());
    }
}

#[test]
fn shapes_follow_first_appearance() {
    let p = PuzzleDefinition::from_ascii_art("order".to_string(), "zy\nxz".to_string());
    assert_eq!(p.shapes.len(), 4);
    assert_eq!(positions(&p.shapes[1]), vec![Position(0, 0), Position(1, 1)]);
    assert_eq!(positions(&p.shapes[2]), vec![Position(0, 0)]);
    assert_eq!(positions(&p.shapes[3]), vec![Position(0, 0)]);
}

#[test]
fn disconnected_regions_form_one_shape() {
    let p = PuzzleDefinition::from_ascii_art("apart".to_string(), "A  A\n\n  A".to_string());
    assert_eq!(p.shapes.len(), 2);
    assert_eq!(positions(&p.shapes[1]), vec![Position(0, 0), Position(3, 0), Position(2, 2)]);
}

#[test]
fn art_is_rebased_to_its_top_left() {
    let p = PuzzleDefinition::from_ascii_art("offset".to_string(), "\n   \r\n  XY\r\n   Y".to_string());
    assert_eq!(p.shapes.len(), 3);
    assert_eq!(positions(&p.shapes[0]), vec![Position(0, 0), Position(1, 0), Position(1, 1)]);
    assert_eq!(positions(&p.shapes[1]), vec![Position(0, 0)]);
    assert_eq!(positions(&p.shapes[2]), vec![Position(0, 0), Position(0, 1)]);
}
