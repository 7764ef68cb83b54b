//! Facts about layout and validation that relate several calls or hold of every input.

use vstd::prelude::*;

use crate::geometry::{GLOBAL_GRID_SNAP, TILE_SIDE_LEN};
use crate::puzzle::{
    auto_flows, flow_after, laid_out, puzzle_solved, top_left_for, Puzzle,
};
use crate::puzzles::{opposite, PuzzleDefinition, ShapeDefinition};
use crate::shape::{covered, has_tile_at, shape_satisfied, shape_size, Shape};
use crate::tile::{tile_satisfied, tile_world};

verus! {

/// The flow's column never moves left of the margin and the widest-shape record
/// is never negative.
proof fn lemma_flow_sane(defs: Seq<ShapeDefinition>, viewport_height: int, n: nat)
    ensures
        flow_after(defs, viewport_height, n).0 >= GLOBAL_GRID_SNAP,
        flow_after(defs, viewport_height, n).2 >= 0,
    decreases n,
{
    if n > 0 {
        lemma_flow_sane(defs, viewport_height, (n - 1) as nat);
    }
}

/// One step of the flow never moves its column left; a step that wraps moves it
/// strictly right.
proof fn lemma_flow_step_right(defs: Seq<ShapeDefinition>, viewport_height: int, n: nat)
    ensures
        flow_after(defs, viewport_height, n).0 <= flow_after(defs, viewport_height, n + 1).0,
        wraps_at(defs, viewport_height, n) ==> flow_after(defs, viewport_height, n).0 < flow_after(
            defs,
            viewport_height,
            n + 1,
        ).0,
{
    lemma_flow_sane(defs, viewport_height, n);
}

/// Shape `k` flows and fills its column: the cursor passes the bottom margin after it.
pub open spec fn wraps_at(defs: Seq<ShapeDefinition>, viewport_height: int, k: nat) -> bool {
    &&& auto_flows(defs[k as int])
    &&& flow_after(defs, viewport_height, k).1 + TILE_SIDE_LEN * shape_size(defs[k as int]).1
        + GLOBAL_GRID_SNAP >= viewport_height - 2 * GLOBAL_GRID_SNAP
}

/// The flow's column never moves left as shapes are placed.
pub proof fn lemma_columns_never_move_left(
    defs: Seq<ShapeDefinition>,
    viewport_height: int,
    i: nat,
    j: nat,
)
    requires
        i <= j,
    ensures
        flow_after(defs, viewport_height, i).0 <= flow_after(defs, viewport_height, j).0,
    decreases j - i,
{
    if i < j {
        lemma_columns_never_move_left(defs, viewport_height, i, (j - 1) as nat);
        lemma_flow_step_right(defs, viewport_height, (j - 1) as nat);
    }
}

/// Once a column is full, every later movable shape stands strictly to the right
/// of every movable shape placed up to that point.
pub proof fn lemma_wrapped_shapes_stand_right(
    definition: PuzzleDefinition,
    viewport_height: int,
    i: nat,
    k: nat,
    j: nat,
)
    requires
        i <= k < j < definition.shapes@.len(),
        definition.shapes@[i as int].interactable,
        definition.shapes@[j as int].interactable,
        wraps_at(definition.shapes@, viewport_height, k),
    ensures
        top_left_for(definition.shapes@, viewport_height, i).0 < top_left_for(
            definition.shapes@,
            viewport_height,
            j,
        ).0,
{
    let defs = definition.shapes@;
    lemma_columns_never_move_left(defs, viewport_height, i, k);
    lemma_flow_step_right(defs, viewport_height, k);
    lemma_columns_never_move_left(defs, viewport_height, k + 1, j);
}

/// Total height, margins included, of the first `n` shapes stacked in one column.
pub open spec fn stack_height(defs: Seq<ShapeDefinition>, n: nat) -> int
    decreases n,
{
    if n == 0 {
        0
    } else {
        stack_height(defs, (n - 1) as nat) + TILE_SIDE_LEN * shape_size(defs[n - 1]).1
            + GLOBAL_GRID_SNAP
    }
}

/// While only flowing shapes have been placed, either the first column is still
/// open and holds them all, or the flow has moved right of it.
proof fn lemma_first_column(defs: Seq<ShapeDefinition>, viewport_height: int, m: nat)
    requires
        m <= defs.len(),
        forall|q: int| 0 <= q < m ==> auto_flows(#[trigger] defs[q]),
    ensures
        flow_after(defs, viewport_height, m).0 > GLOBAL_GRID_SNAP || (flow_after(
            defs,
            viewport_height,
            m,
        ).0 == GLOBAL_GRID_SNAP && flow_after(defs, viewport_height, m).1 == GLOBAL_GRID_SNAP
            + stack_height(defs, m)),
    decreases m,
{
    if m > 0 {
        lemma_first_column(defs, viewport_height, (m - 1) as nat);
        lemma_flow_step_right(defs, viewport_height, (m - 1) as nat);
        lemma_flow_sane(defs, viewport_height, (m - 1) as nat);
        assert(auto_flows(defs[m - 1]));
    }
}

/// Flowing shapes taller together than the viewport (the first `k + 1` of them,
/// with margins, reach the bottom margin) use at least two columns: any later
/// movable shape stands strictly right of the first shape.
pub proof fn lemma_tall_puzzles_wrap(definition: PuzzleDefinition, viewport_height: int, k: nat, j: nat)
    requires
        k < j < definition.shapes@.len(),
        forall|q: int| 0 <= q <= k ==> auto_flows(#[trigger] definition.shapes@[q]),
        definition.shapes@[j as int].interactable,
        GLOBAL_GRID_SNAP + stack_height(definition.shapes@, k + 1) >= viewport_height - 2
            * GLOBAL_GRID_SNAP,
    ensures
        top_left_for(definition.shapes@, viewport_height, 0).0 < top_left_for(
            definition.shapes@,
            viewport_height,
            j,
        ).0,
{
    let defs = definition.shapes@;
    assert(auto_flows(defs[0]));
    lemma_first_column(defs, viewport_height, k);
    lemma_flow_step_right(defs, viewport_height, k);
    lemma_flow_sane(defs, viewport_height, k);
    assert(auto_flows(defs[k as int]));
    assert(flow_after(defs, viewport_height, k + 1).0 > GLOBAL_GRID_SNAP);
    lemma_columns_never_move_left(defs, viewport_height, k + 1, j);
}

/// A shape with a fixed position stands at the same place whatever the viewport's
/// height, and leaves the flow of the other shapes as it was.
pub proof fn lemma_fixed_shapes_ignore_viewport(
    definition: PuzzleDefinition,
    height1: int,
    height2: int,
    p1: Puzzle,
    p2: Puzzle,
    i: int,
)
    requires
        laid_out(p1, definition, height1),
        laid_out(p2, definition, height2),
        0 <= i < definition.shapes@.len(),
        definition.shapes@[i].pos is Some,
    ensures
        p1.shapes@[i].pos == p2.shapes@[i].pos,
        forall|vh: int|
            #[trigger] flow_after(definition.shapes@, vh, (i + 1) as nat) == flow_after(
                definition.shapes@,
                vh,
                i as nat,
            ),
{
    assert(p1.shapes@[i].pos@ == p2.shapes@[i].pos@);
}

/// Two layouts of the same definition for the same viewport height agree on every
/// shape's position, size, colour and tiles.
pub proof fn lemma_layout_deterministic(
    definition: PuzzleDefinition,
    viewport_height: int,
    p1: Puzzle,
    p2: Puzzle,
)
    requires
        laid_out(p1, definition, viewport_height),
        laid_out(p2, definition, viewport_height),
    ensures
        p1.shapes@.len() == p2.shapes@.len(),
        forall|i: int|
            0 <= i < p1.shapes@.len() ==> {
                &&& (#[trigger] p1.shapes@[i]).pos == p2.shapes@[i].pos
                &&& p1.shapes@[i].size == p2.shapes@[i].size
                &&& p1.shapes@[i].color == p2.shapes@[i].color
                &&& p1.shapes@[i].tiles@ == p2.shapes@[i].tiles@
            },
{
    assert forall|i: int| 0 <= i < p1.shapes@.len() implies {
        &&& (#[trigger] p1.shapes@[i]).pos == p2.shapes@[i].pos
        &&& p1.shapes@[i].size == p2.shapes@[i].size
        &&& p1.shapes@[i].color == p2.shapes@[i].color
        &&& p1.shapes@[i].tiles@ == p2.shapes@[i].tiles@
    } by {
        assert(p1.shapes@[i].pos@ == p2.shapes@[i].pos@);
        assert(p1.shapes@[i].tiles@ =~= p2.shapes@[i].tiles@);
    }
}

/// Validating a puzzle that has not changed in between gives the same answer again.
pub proof fn lemma_validation_repeatable(p: Puzzle, first: bool, second: bool)
    requires
        first == puzzle_solved(p.shapes@),
        second == puzzle_solved(p.shapes@),
    ensures
        first == second,
{
}

/// World cell of tile `k` of shape `i`.
pub open spec fn world_at(shapes: Seq<Shape>, i: int, k: int) -> (int, int) {
    tile_world(shapes[i].pos@, shapes[i].tiles@[k])
}

/// When every tile has a tile of the opposite type on its cell, the puzzle is solved.
pub proof fn lemma_matched_puzzle_solved(p: Puzzle)
    requires
        forall|i: int, k: int|
            0 <= i < p.shapes@.len() && 0 <= k < p.shapes@[i].tiles@.len() ==> exists|j: int, m: int|
                0 <= j < p.shapes@.len() && 0 <= m < p.shapes@[j].tiles@.len()
                    && p.shapes@[j].tiles@[m].tile_type == opposite(
                    p.shapes@[i].tiles@[k].tile_type,
                ) && #[trigger] world_at(p.shapes@, j, m) == #[trigger] world_at(p.shapes@, i, k),
    ensures
        puzzle_solved(p.shapes@),
{
    let shapes = p.shapes@;
    assert forall|i: int| 0 <= i < shapes.len() implies shape_satisfied(shapes, #[trigger] shapes[i]) by {
        assert forall|k: int| 0 <= k < shapes[i].tiles@.len() implies tile_satisfied(
            shapes,
            shapes[i].pos@,
            #[trigger] shapes[i].tiles@[k],
        ) by {
            assert(world_at(shapes, i, k) == world_at(shapes, i, k));
            let (j, m) = choose|j: int, m: int|
                0 <= j < shapes.len() && 0 <= m < shapes[j].tiles@.len()
                    && shapes[j].tiles@[m].tile_type == opposite(shapes[i].tiles@[k].tile_type)
                    && #[trigger] world_at(shapes, j, m) == #[trigger] world_at(shapes, i, k);
            assert(has_tile_at(shapes[j], world_at(shapes, i, k), opposite(shapes[i].tiles@[k].tile_type)));
        }
    }
}

/// Every tile cell of the puzzle lies on one lattice of tile-sized steps.
pub open spec fn aligned(shapes: Seq<Shape>) -> bool {
    forall|i: int, k: int, j: int, m: int|
        0 <= i < shapes.len() && 0 <= k < shapes[i].tiles@.len() && 0 <= j < shapes.len() && 0 <= m
            < shapes[j].tiles@.len() ==> {
            &&& (#[trigger] world_at(shapes, i, k).0 - #[trigger] world_at(shapes, j, m).0)
                % (TILE_SIDE_LEN as int) == 0
            &&& (world_at(shapes, i, k).1 - world_at(shapes, j, m).1) % (TILE_SIDE_LEN as int) == 0
        }
}

/// No two tiles of `s` share a cell.
pub open spec fn distinct_cells(s: Shape) -> bool {
    forall|k1: int, k2: int|
        0 <= k1 < s.tiles@.len() && 0 <= k2 < s.tiles@.len() && k1 != k2 ==> (#[trigger] s.tiles@[k1]).pos
            != (#[trigger] s.tiles@[k2]).pos
}

/// In a puzzle whose tiles lie on one lattice, moving a shape that has tiles, no two
/// on one cell, by an offset off the lattice (one grid quantum, say) leaves its
/// tiles unmatched: the puzzle is no longer solved.
pub proof fn lemma_offset_shape_unsolves(p1: Puzzle, p2: Puzzle, s: int, dx: int, dy: int)
    requires
        aligned(p1.shapes@),
        0 <= s < p1.shapes@.len(),
        p1.shapes@[s].tiles@.len() > 0,
        distinct_cells(p1.shapes@[s]),
        dx % (TILE_SIDE_LEN as int) != 0 || dy % (TILE_SIDE_LEN as int) != 0,
        p2.shapes@.len() == p1.shapes@.len(),
        forall|j: int| 0 <= j < p1.shapes@.len() && j != s ==> #[trigger] p2.shapes@[j] == p1.shapes@[j],
        p2.shapes@[s].tiles@ == p1.shapes@[s].tiles@,
        p2.shapes@[s].pos@ == (p1.shapes@[s].pos@.0 + dx, p1.shapes@[s].pos@.1 + dy),
    ensures
        !puzzle_solved(p2.shapes@),
{
    let a = p1.shapes@;
    let b = p2.shapes@;
    let t = b[s].tiles@[0];
    let at = tile_world(b[s].pos@, t);
    assert(at == (world_at(a, s, 0).0 + dx, world_at(a, s, 0).1 + dy));
    if covered(b, at, opposite(t.tile_type)) {
        let j = choose|j: int| 0 <= j < b.len() && has_tile_at(#[trigger] b[j], at, opposite(t.tile_type));
        let m = choose|m: int|
            0 <= m < b[j].tiles@.len() && (#[trigger] b[j].tiles@[m]).tile_type == opposite(t.tile_type)
                && tile_world(b[j].pos@, b[j].tiles@[m]) == at;
        if j == s {
            assert(TILE_SIDE_LEN * b[s].tiles@[m].pos.0 == TILE_SIDE_LEN * t.pos.0);
            assert(TILE_SIDE_LEN * b[s].tiles@[m].pos.1 == TILE_SIDE_LEN * t.pos.1);
            assert(b[s].tiles@[m].pos == t.pos);
            assert(a[s].tiles@[m] == b[s].tiles@[m]);
            assert(m == 0);
            assert(false);
        } else {
            assert(b[j] == a[j]);
            assert(world_at(a, j, m) == at);
            assert((world_at(a, j, m).0 - world_at(a, s, 0).0) % (TILE_SIDE_LEN as int) == 0);
            assert((world_at(a, j, m).1 - world_at(a, s, 0).1) % (TILE_SIDE_LEN as int) == 0);
            assert(false);
        }
    }
    assert(!tile_satisfied(b, b[s].pos@, b[s].tiles@[0]));
    assert(!shape_satisfied(b, b[s]));
}

} // verus!
