//! A running puzzle: its shapes laid out from a definition, pointer input, and
//! the check of whether the player has solved it.

use vstd::prelude::*;

use crate::colors::{color_order, shape_colors};
use crate::geometry::{IVector2, GLOBAL_GRID_SNAP, TILE_SIDE_LEN};
use crate::puzzles::{PuzzleDefinition, ShapeDefinition, TileType, MAX_SHAPES};
use crate::shape::{
    placed_pos, shape_satisfied, shape_size, shown_at, tiles_resolved, Shape,
};

verus! {

/// The shapes of a puzzle on screen, in definition order; a shape's index is its id.
#[derive(Debug, Clone)]
pub struct Puzzle {
    pub shapes: Vec<Shape>,
}

/// A shape that takes part in the column flow: movable and without a fixed position.
pub open spec fn auto_flows(d: ShapeDefinition) -> bool {
    d.interactable && d.pos is None
}

/// The flow after placing shape `d` from `state`: the cursor's column and row and
/// the widest shape of the current column, in world units. A flowing shape moves
/// the cursor down by its height and a margin; once the cursor reaches the bottom
/// margin of a viewport `viewport_height` high, the next column starts to the right
/// of the widest shape. Other shapes leave the flow as it is.
pub open spec fn flow_step(state: (int, int, int), d: ShapeDefinition, viewport_height: int) -> (
    int,
    int,
    int,
) {
    if auto_flows(d) {
        let size = shape_size(d);
        let y = state.1 + TILE_SIDE_LEN * size.1 + GLOBAL_GRID_SNAP;
        let w = if state.2 >= TILE_SIDE_LEN * size.0 {
            state.2
        } else {
            TILE_SIDE_LEN * size.0
        };
        if y >= viewport_height - 2 * GLOBAL_GRID_SNAP {
            (state.0 + w + GLOBAL_GRID_SNAP, GLOBAL_GRID_SNAP as int, 0)
        } else {
            (state.0, y, w)
        }
    } else {
        state
    }
}

/// The flow after the first `n` shapes of `defs`; it starts at the top-left margin.
pub open spec fn flow_after(defs: Seq<ShapeDefinition>, viewport_height: int, n: nat) -> (
    int,
    int,
    int,
)
    decreases n,
{
    if n == 0 {
        (GLOBAL_GRID_SNAP as int, GLOBAL_GRID_SNAP as int, 0)
    } else {
        flow_step(flow_after(defs, viewport_height, (n - 1) as nat), defs[n - 1], viewport_height)
    }
}

/// Where shape `i`'s bounding box is put: at the flow's cursor for a movable
/// shape, at the fixed anchor (the top-left margin) for a background shape.
pub open spec fn top_left_for(defs: Seq<ShapeDefinition>, viewport_height: int, i: nat) -> (int, int) {
    if defs[i as int].interactable {
        (flow_after(defs, viewport_height, i).0, flow_after(defs, viewport_height, i).1)
    } else {
        (GLOBAL_GRID_SNAP as int, GLOBAL_GRID_SNAP as int)
    }
}

/// `s` is shape `i` of `defs` as laid out for the viewport height: placed, sized,
/// coloured, with its tiles resolved, and at rest.
pub open spec fn shape_placed(s: Shape, defs: Seq<ShapeDefinition>, viewport_height: int, i: nat) -> bool {
    &&& s.pos@ == placed_pos(top_left_for(defs, viewport_height, i), defs[i as int])
    &&& s.size == shape_size(defs[i as int])
    &&& s.color == color_order(defs.len())[i as int]
    &&& tiles_resolved(s.tiles@, defs[i as int])
    &&& s.drag_pos_start is None
}

/// `p` is the layout of `definition` for the viewport height.
pub open spec fn laid_out(p: Puzzle, definition: PuzzleDefinition, viewport_height: int) -> bool {
    &&& p.shapes@.len() == definition.shapes@.len()
    &&& forall|i: int|
        0 <= i < p.shapes@.len() ==> shape_placed(
            #[trigger] p.shapes@[i],
            definition.shapes@,
            viewport_height,
            i as nat,
        )
}

/// Every tile of every shape meets its overlap rule.
pub open spec fn puzzle_solved(shapes: Seq<Shape>) -> bool {
    forall|i: int| 0 <= i < shapes.len() ==> shape_satisfied(shapes, #[trigger] shapes[i])
}

/// `after` is `before` once the pointer was pressed (or released) at `pointer`.
pub open spec fn drag_update(before: Shape, after: Shape, pressed: bool, pointer: IVector2) -> bool {
    &&& after.tiles == before.tiles
    &&& after.size == before.size
    &&& after.color == before.color
    &&& pressed ==> after.pos == before.pos && after.drag_pos_start == Some((before.pos, pointer))
    &&& !pressed ==> after.pos == shown_at(before, pointer) && after.drag_pos_start is None
}

impl Puzzle {
    /// Lays out `definition` for a viewport `viewport_height` world units high.
    /// Shapes are taken in order. A shape with a fixed position stands there. A
    /// background shape without one stands at the top-left margin. Every other
    /// shape flows down the current column and the column wraps at the bottom
    /// margin (see `flow_step`). Colours are a seeded rearrangement of the
    /// gradient, the same for every puzzle with as many shapes.
    pub fn from_definition(definition: &PuzzleDefinition, viewport_height: i64) -> (r: Puzzle)
        requires
            definition.within_limits(),
        ensures
            laid_out(r, *definition, viewport_height as int),
    {
        let defs = &definition.shapes;
        let n = defs.len();
        let colors = shape_colors(n);
        let ghost vh = viewport_height as int;
        let mut x: i64 = GLOBAL_GRID_SNAP;
        let mut y: i64 = GLOBAL_GRID_SNAP;
        let mut w: i64 = 0;
        let mut shapes: Vec<Shape> = Vec::new();
        for i in 0..n
            invariant
                n == defs@.len(),
                n <= MAX_SHAPES,
                vh == viewport_height as int,
                definition.within_limits(),
                defs == definition.shapes,
                colors@ == color_order(n as nat),
                colors@.len() == n,
                (x as int, y as int, w as int) == flow_after(defs@, vh, i as nat),
                5 <= x <= 5 + i * 50_000_055,
                5 <= y <= 5 + i * 50_000_055,
                0 <= w <= 50_000_050,
                shapes@.len() == i,
                forall|k: int| 0 <= k < i ==> shape_placed(#[trigger] shapes@[k], defs@, vh, k as nat),
        {
            let sd = &defs[i];
            let interactable = sd.interactable;
            let tl = if interactable {
                IVector2 { x, y }
            } else {
                IVector2 { x: GLOBAL_GRID_SNAP, y: GLOBAL_GRID_SNAP }
            };
            let (shape, size) = Shape::from_definition(tl, sd, colors[i]);
            shapes.push(shape);
            assert(flow_after(defs@, vh, (i + 1) as nat) == flow_step(
                flow_after(defs@, vh, i as nat),
                defs@[i as int],
                vh,
            ));
            if interactable && sd.pos.is_none() {
                y = y + TILE_SIDE_LEN * (size.1 as i64) + GLOBAL_GRID_SNAP;
                let sw: i64 = TILE_SIDE_LEN * (size.0 as i64);
                if sw > w {
                    w = sw;
                }
                if y + 2 * GLOBAL_GRID_SNAP >= viewport_height {
                    x = x + w + GLOBAL_GRID_SNAP;
                    y = GLOBAL_GRID_SNAP;
                    w = 0;
                }
            }
        }
        Puzzle { shapes }
    }

    /// Lays out puzzle `idx` of `catalog`, as `from_definition` does.
    pub fn from_idx(catalog: &Vec<PuzzleDefinition>, idx: usize, viewport_height: i64) -> (r: Puzzle)
        requires
            idx < catalog@.len(),
            catalog@[idx as int].within_limits(),
        ensures
            laid_out(r, catalog@[idx as int], viewport_height as int),
    {
        Puzzle::from_definition(&catalog[idx], viewport_height)
    }

    /// Whether every tile of every shape meets its overlap rule. Reads the shapes'
    /// current positions and changes nothing.
    pub fn validate(&self) -> (r: bool)
        ensures
            r == puzzle_solved(self.shapes@),
    {
        let n = self.shapes.len();
        for i in 0..n
            invariant
                n == self.shapes@.len(),
                forall|j: int|
                    0 <= j < i ==> shape_satisfied(self.shapes@, #[trigger] self.shapes@[j]),
        {
            if !self.shapes[i].validate(&self.shapes) {
                return false;
            }
        }
        true
    }

    /// A press or release of the pointer at `pointer` on tile `tile_idx` of shape
    /// `shape_idx`. A foreground tile passes it to its shape's drag; a background
    /// tile, or an index out of range, ignores it.
    pub fn tile_input_event(&mut self, shape_idx: usize, tile_idx: usize, pressed: bool, pointer: IVector2)
        ensures
            final(self).shapes@.len() == old(self).shapes@.len(),
            forall|j: int|
                0 <= j < old(self).shapes@.len() && j != shape_idx ==> #[trigger] final(self).shapes@[j]
                    == old(self).shapes@[j],
            ({
                let responds = shape_idx < old(self).shapes@.len() && tile_idx < old(
                    self,
                ).shapes@[shape_idx as int].tiles@.len() && old(
                    self,
                ).shapes@[shape_idx as int].tiles@[tile_idx as int].tile_type == TileType::Foreground;
                &&& responds ==> drag_update(
                    old(self).shapes@[shape_idx as int],
                    final(self).shapes@[shape_idx as int],
                    pressed,
                    pointer,
                )
                &&& !responds ==> final(self).shapes@ == old(self).shapes@
            }),
    {
        if shape_idx >= self.shapes.len() || tile_idx >= self.shapes[shape_idx].tiles.len() {
            return;
        }
        if self.shapes[shape_idx].tiles[tile_idx].tile_type != TileType::Foreground {
            return;
        }
        let mut shape = self.shapes.remove(shape_idx);
        shape.update_dragged(pressed, pointer);
        self.shapes.insert(shape_idx, shape);
    }
}

} // verus!
