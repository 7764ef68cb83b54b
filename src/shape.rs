//! Shapes of a running puzzle: where they stand, their tiles, and how a drag moves them.

use vstd::prelude::*;

use crate::geometry::{
    pos_le, saturate, snap, snap_saturate, IVector2, Position, TILE_SIDE_LEN,
};
use crate::puzzles::{
    coord_ok, default_tile_type, lemma_min_max_pos_bound, lemma_rect_tiles_cover, max_pos,
    max_position, min_pos, min_position, tile_positions, Shape as ShapeSpec, ShapeDefinition,
    TileType, MAX_COORD,
};
use crate::tile::{resolve_tile, tile_satisfied, tile_world, Tile};

verus! {

/// A shape of a running puzzle. `pos` is its current place in world units;
/// `size` its extent in tiles; `color` the index of its colour among the
/// puzzle's colours; `drag_pos_start`, while it is being dragged, where the shape
/// and the pointer stood when the drag began.
#[derive(Debug, Clone)]
pub struct Shape {
    pub pos: IVector2,
    pub size: Position,
    pub color: usize,
    pub tiles: Vec<Tile>,
    pub drag_pos_start: Option<(IVector2, IVector2)>,
}

/// Some tile of `s` of type `wanted` stands at world cell `at`.
pub open spec fn has_tile_at(s: Shape, at: (int, int), wanted: TileType) -> bool {
    exists|k: int|
        0 <= k < s.tiles@.len() && (#[trigger] s.tiles@[k]).tile_type == wanted && tile_world(
            s.pos@,
            s.tiles@[k],
        ) == at
}

/// Some shape among `shapes` has a tile of type `wanted` at world cell `at`.
pub open spec fn covered(shapes: Seq<Shape>, at: (int, int), wanted: TileType) -> bool {
    exists|j: int| 0 <= j < shapes.len() && has_tile_at(#[trigger] shapes[j], at, wanted)
}

/// Every tile of `s` meets its overlap rule among `shapes`.
pub open spec fn shape_satisfied(shapes: Seq<Shape>, s: Shape) -> bool {
    forall|k: int| 0 <= k < s.tiles@.len() ==> tile_satisfied(shapes, s.pos@, #[trigger] s.tiles@[k])
}

/// Where a drag that began with the shape at `start` and the pointer at `pointer_start`
/// puts the shape when the pointer is at `pointer`: moved by the pointer's travel,
/// snapped to the grid quantum, saturated into range.
pub open spec fn drag_target(start: IVector2, pointer_start: IVector2, pointer: IVector2) -> IVector2 {
    IVector2 {
        x: saturate(snap(start.x + pointer.x - pointer_start.x)) as i64,
        y: saturate(snap(start.y + pointer.y - pointer_start.y)) as i64,
    }
}

/// Where a shape is shown while the pointer is at `pointer`.
pub open spec fn shown_at(s: Shape, pointer: IVector2) -> IVector2 {
    match s.drag_pos_start {
        Some((start, pointer_start)) => drag_target(start, pointer_start, pointer),
        None => s.pos,
    }
}

/// The positions of a shape's declared tiles.
pub open spec fn def_positions(d: ShapeDefinition) -> Seq<Position> {
    tile_positions(d.spec_get_tiles())
}

/// Extent of a shape in tiles: the bounding box of its tiles, each a full cell
/// (nothing for a shape without tiles).
pub open spec fn shape_size(d: ShapeDefinition) -> Position {
    let ps = def_positions(d);
    if ps.len() == 0 {
        Position(0, 0)
    } else {
        Position((max_pos(ps).0 - min_pos(ps).0 + 1) as usize, (max_pos(ps).1 - min_pos(ps).1 + 1) as usize)
    }
}

/// World position of a shape: its fixed position scaled to world units, or else the
/// origin that puts the top-left corner of its bounding box at `tl`. Tile centres
/// sit on their grid positions, so the box reaches half a tile beyond them.
pub open spec fn placed_pos(tl: (int, int), d: ShapeDefinition) -> (int, int) {
    let ps = def_positions(d);
    match d.pos {
        Some(p) => (TILE_SIDE_LEN * p.0, TILE_SIDE_LEN * p.1),
        None => if ps.len() == 0 {
            tl
        } else {
            (
                tl.0 - TILE_SIDE_LEN * min_pos(ps).0 + TILE_SIDE_LEN / 2,
                tl.1 - TILE_SIDE_LEN * min_pos(ps).1 + TILE_SIDE_LEN / 2,
            )
        },
    }
}

/// `tiles` are the declared tiles of `d`, each typed by `d`'s default where it has no type.
pub open spec fn tiles_resolved(tiles: Seq<Tile>, d: ShapeDefinition) -> bool {
    &&& tiles.len() == d.spec_get_tiles().len()
    &&& forall|k: int|
        0 <= k < tiles.len() ==> #[trigger] tiles[k] == resolve_tile(
            d.spec_get_tiles()[k],
            default_tile_type(d.interactable),
        )
}

/// Bound on the top-left corners that `Shape::from_definition` accepts.
pub const MAX_TOP_LEFT: i64 = 1_000_000_000_000_000;

/// The declared tiles of a shape within limits stay within `MAX_COORD`.
proof fn lemma_def_tiles_within(d: ShapeDefinition)
    requires
        d.within_limits(),
    ensures
        forall|k: int| 0 <= k < def_positions(d).len() ==> coord_ok(#[trigger] def_positions(d)[k]),
{
    if let ShapeSpec::Rect(w, h) = d.tiles {
        if w >= 1 && h >= 1 {
            lemma_rect_tiles_cover(w, h);
        }
    }
    assert forall|k: int| 0 <= k < def_positions(d).len() implies coord_ok(
        #[trigger] def_positions(d)[k],
    ) by {
        let t = d.spec_get_tiles()[k];
        assert(def_positions(d)[k] == t.pos);
        match d.tiles {
            ShapeSpec::RawTiles(v) => {
                assert(t == v@[k]);
            },
            ShapeSpec::Rect(w, h) => {
                if w == 0 || h == 0 {
                    assert(w * h == 0) by (nonlinear_arith)
                        requires
                            w == 0 || h == 0,
                    ;
                }
                assert(t == crate::puzzles::rect_tiles(w, h)[k]);
            },
        }
    }
}

impl Shape {
    /// Builds the shape for `definition` with its bounding box's top-left corner at
    /// `tl_position` (unless the definition fixes its position), and returns it with
    /// its size in tiles.
    pub fn from_definition(tl_position: IVector2, definition: &ShapeDefinition, color: usize) -> (r: (
        Shape,
        Position,
    ))
        requires
            definition.within_limits(),
            -MAX_TOP_LEFT <= tl_position.x <= MAX_TOP_LEFT,
            -MAX_TOP_LEFT <= tl_position.y <= MAX_TOP_LEFT,
        ensures
            r.0.pos@ == placed_pos(tl_position@, *definition),
            r.0.size == shape_size(*definition),
            r.1 == r.0.size,
            r.1.0 <= MAX_COORD + 1,
            r.1.1 <= MAX_COORD + 1,
            r.0.color == color,
            tiles_resolved(r.0.tiles@, *definition),
            r.0.drag_pos_start is None,
    {
        let defs = definition.get_tiles();
        let n = defs.len();
        let base_type = TileType::from_interactable(definition.interactable);
        let mut tiles: Vec<Tile> = Vec::new();
        let mut positions: Vec<Position> = Vec::new();
        for i in 0..n
            invariant
                n == defs@.len(),
                defs@ == definition.spec_get_tiles(),
                base_type == default_tile_type(definition.interactable),
                positions@ =~= tile_positions(defs@).take(i as int),
                tiles@.len() == i,
                forall|k: int|
                    0 <= k < i ==> #[trigger] tiles@[k] == resolve_tile(defs@[k], base_type),
        {
            positions.push(defs[i].pos);
            tiles.push(Tile::from_definition(&defs[i], base_type));
        }
        assert(positions@ =~= def_positions(*definition));
        proof {
            lemma_def_tiles_within(*definition);
            lemma_min_max_pos_bound(positions@);
            crate::puzzles::lemma_max_pos_within(positions@);
        }
        let top_left = min_position(&positions);
        let bottom_right = max_position(&positions);
        let size = if n == 0 {
            Position(0, 0)
        } else {
            assert(pos_le(top_left, positions@[0]) && pos_le(positions@[0], bottom_right));
            assert(coord_ok(positions@[0]));
            Position(bottom_right.0 - top_left.0 + 1, bottom_right.1 - top_left.1 + 1)
        };
        let pos = match definition.pos {
            Some(p) => IVector2 { x: TILE_SIDE_LEN * p.0 as i64, y: TILE_SIDE_LEN * p.1 as i64 },
            None => if n == 0 {
                tl_position
            } else {
                assert(pos_le(top_left, positions@[0]) && coord_ok(positions@[0]));
                IVector2 {
                    x: tl_position.x - TILE_SIDE_LEN * top_left.0 as i64 + TILE_SIDE_LEN / 2,
                    y: tl_position.y - TILE_SIDE_LEN * top_left.1 as i64 + TILE_SIDE_LEN / 2,
                }
            },
        };
        let shape = Shape { pos, size, color, tiles, drag_pos_start: None };
        (shape, size)
    }

    /// Handles a press (`pressed`) or release of the pointer on this shape: a press
    /// starts a drag from where the shape and the pointer stand; a release during a
    /// drag commits the shape to the drag's snapped target and ends the drag.
    pub fn update_dragged(&mut self, pressed: bool, pointer: IVector2)
        ensures
            final(self).tiles == old(self).tiles,
            final(self).size == old(self).size,
            final(self).color == old(self).color,
            pressed ==> final(self).pos == old(self).pos && final(self).drag_pos_start == Some(
                (old(self).pos, pointer),
            ),
            !pressed ==> final(self).pos == shown_at(*old(self), pointer)
                && final(self).drag_pos_start is None,
    {
        if pressed {
            self.drag_pos_start = Some((self.pos, pointer));
        } else {
            self.pos = self.dragged_position(pointer);
            self.drag_pos_start = None;
        }
    }

    /// Where the shape is shown while the pointer stands at `pointer`: during a
    /// drag, its snapped drag target; otherwise its resting place.
    pub fn dragged_position(&self, pointer: IVector2) -> (r: IVector2)
        ensures
            r == shown_at(*self, pointer),
    {
        match self.drag_pos_start {
            Some((start, pointer_start)) => IVector2 {
                x: snap_saturate(start.x as i128 + pointer.x as i128 - pointer_start.x as i128),
                y: snap_saturate(start.y as i128 + pointer.y as i128 - pointer_start.y as i128),
            },
            None => self.pos,
        }
    }

    /// Whether every tile of this shape meets its overlap rule among `all_shapes`.
    pub fn validate(&self, all_shapes: &Vec<Shape>) -> (r: bool)
        ensures
            r == shape_satisfied(all_shapes@, *self),
    {
        let n = self.tiles.len();
        for k in 0..n
            invariant
                n == self.tiles@.len(),
                forall|kk: int|
                    0 <= kk < k ==> tile_satisfied(all_shapes@, self.pos@, #[trigger] self.tiles@[kk]),
        {
            if !self.tiles[k].validate(self.pos, all_shapes) {
                return false;
            }
        }
        true
    }

    /// Whether some tile of this shape of type `wanted` stands on the cell of
    /// `tgt_tile`, a tile of a shape at `tgt_owner_pos`.
    pub fn overlaps_with_tile(&self, tgt_owner_pos: IVector2, tgt_tile: &Tile, wanted: TileType) -> (r:
        bool)
        ensures
            r == has_tile_at(*self, tile_world(tgt_owner_pos@, *tgt_tile), wanted),
    {
        let tgt = crate::tile::world_of(tgt_owner_pos, tgt_tile);
        let n = self.tiles.len();
        for k in 0..n
            invariant
                n == self.tiles@.len(),
                (tgt.0 as int, tgt.1 as int) == tile_world(tgt_owner_pos@, *tgt_tile),
                forall|kk: int|
                    0 <= kk < k ==> !((#[trigger] self.tiles@[kk]).tile_type == wanted && tile_world(
                        self.pos@,
                        self.tiles@[kk],
                    ) == tile_world(tgt_owner_pos@, *tgt_tile)),
        {
            let tile = &self.tiles[k];
            if tile.tile_type == wanted {
                let at = crate::tile::world_of(self.pos, tile);
                if at.0 == tgt.0 && at.1 == tgt.1 {
                    return true;
                }
            }
        }
        false
    }
}

} // verus!
