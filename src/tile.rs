//! Tiles as placed in a running puzzle, and the overlap rule each one must meet.

use vstd::prelude::*;

use crate::geometry::{IVector2, Position, TILE_SIDE_LEN};
pub use crate::puzzles::TileType;
use crate::puzzles::{opposite, TileDefinition};
use crate::shape::{covered, Shape};

verus! {

/// A tile of a running shape: its offset within the shape, in grid cells, and its type.
#[derive(Debug, Clone, Copy, PartialEq, Eq, Structural)]
pub struct Tile {
    pub pos: Position,
    pub tile_type: TileType,
}

/// The tile a definition gives inside a shape whose default type is `base_type`.
pub open spec fn resolve_tile(definition: TileDefinition, base_type: TileType) -> Tile {
    Tile {
        pos: definition.pos,
        tile_type: match definition.tile_type {
            Some(t) => t,
            None => base_type,
        },
    }
}

/// Where tile `t` stands in the world when its shape stands at `owner`.
pub open spec fn tile_world(owner: (int, int), t: Tile) -> (int, int) {
    (owner.0 + TILE_SIDE_LEN * t.pos.0, owner.1 + TILE_SIDE_LEN * t.pos.1)
}

/// A tile is satisfied when some tile of the opposite type, in any shape, stands on the same cell.
pub open spec fn tile_satisfied(shapes: Seq<Shape>, owner: (int, int), t: Tile) -> bool {
    covered(shapes, tile_world(owner, t), opposite(t.tile_type))
}

/// World coordinates of tile `t` of a shape at `owner`; wide enough for any operands.
pub fn world_of(owner: IVector2, t: &Tile) -> (r: (i128, i128))
    ensures
        (r.0 as int, r.1 as int) == tile_world(owner@, *t),
{
    (
        owner.x as i128 + 50 * (t.pos.0 as i128),
        owner.y as i128 + 50 * (t.pos.1 as i128),
    )
}

impl Tile {
    /// The tile for `definition` in a shape whose default type is `base_type`.
    pub fn from_definition(definition: &TileDefinition, base_type: TileType) -> (r: Tile)
        ensures
            r == resolve_tile(*definition, base_type),
    {
        let tile_type = match definition.tile_type {
            Some(t) => t,
            None => base_type,
        };
        Tile { pos: definition.pos, tile_type }
    }

    /// Whether this tile, in a shape standing at `owner_pos`, meets its overlap rule
    /// among `all_shapes`.
    pub fn validate(&self, owner_pos: IVector2, all_shapes: &Vec<Shape>) -> (r: bool)
        ensures
            r == tile_satisfied(all_shapes@, owner_pos@, *self),
    {
        match self.tile_type {
            TileType::Background => self.validate_background(owner_pos, all_shapes),
            TileType::Foreground => self.validate_foreground(owner_pos, all_shapes),
        }
    }

    /// Some foreground tile covers this tile's cell.
    fn validate_background(&self, owner_pos: IVector2, all_shapes: &Vec<Shape>) -> (r: bool)
        ensures
            r == covered(all_shapes@, tile_world(owner_pos@, *self), TileType::Foreground),
    {
        let n = all_shapes.len();
        for j in 0..n
            invariant
                n == all_shapes@.len(),
                forall|jj: int|
                    0 <= jj < j ==> !crate::shape::has_tile_at(
                        #[trigger] all_shapes@[jj],
                        tile_world(owner_pos@, *self),
                        TileType::Foreground,
                    ),
        {
            if all_shapes[j].overlaps_with_tile(owner_pos, self, TileType::Foreground) {
                return true;
            }
        }
        false
    }

    /// Some background tile lies under this tile's cell.
    fn validate_foreground(&self, owner_pos: IVector2, all_shapes: &Vec<Shape>) -> (r: bool)
        ensures
            r == covered(all_shapes@, tile_world(owner_pos@, *self), TileType::Background),
    {
        let n = all_shapes.len();
        for j in 0..n
            invariant
                n == all_shapes@.len(),
                forall|jj: int|
                    0 <= jj < j ==> !crate::shape::has_tile_at(
                        #[trigger] all_shapes@[jj],
                        tile_world(owner_pos@, *self),
                        TileType::Background,
                    ),
        {
            if all_shapes[j].overlaps_with_tile(owner_pos, self, TileType::Background) {
                return true;
            }
        }
        false
    }
}

} // verus!
