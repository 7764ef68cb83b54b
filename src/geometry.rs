//! Grid positions, integer world vectors and grid snapping.

use vstd::prelude::*;

verus! {

/// Side of one tile, in world units.
pub const TILE_SIDE_LEN: i64 = 50;

/// Snapping quantum for dragged shapes and the margin used by the layout, in world units.
pub const GLOBAL_GRID_SNAP: i64 = 5;

/// The largest multiple of the grid quantum that an `i64` holds; dragged
/// positions saturate there.
pub const MAX_GRID_COORD: i64 = 9223372036854775805;

/// A cell on the puzzle grid: column, then row.
#[derive(Debug, Clone, Copy, PartialEq, Eq, Structural)]
pub struct Position(pub usize, pub usize);

pub open spec fn min_usize(a: usize, b: usize) -> usize {
    if a <= b { a } else { b }
}

pub open spec fn max_usize(a: usize, b: usize) -> usize {
    if a >= b { a } else { b }
}

/// Componentwise minimum of two positions.
pub open spec fn pos_min(p1: Position, p2: Position) -> Position {
    Position(min_usize(p1.0, p2.0), min_usize(p1.1, p2.1))
}

/// Componentwise maximum of two positions.
pub open spec fn pos_max(p1: Position, p2: Position) -> Position {
    Position(max_usize(p1.0, p2.0), max_usize(p1.1, p2.1))
}

/// `p` lies at or right/below `q` in both coordinates.
pub open spec fn pos_le(q: Position, p: Position) -> bool {
    q.0 <= p.0 && q.1 <= p.1
}

impl Position {
    /// Componentwise sum.
    pub fn add(self, rhs: Position) -> (r: Position)
        requires
            self.0 + rhs.0 <= usize::MAX,
            self.1 + rhs.1 <= usize::MAX,
        ensures
            r.0 == self.0 + rhs.0,
            r.1 == self.1 + rhs.1,
    {
        Position(self.0 + rhs.0, self.1 + rhs.1)
    }

    /// Componentwise difference; the caller rules out underflow.
    pub fn sub(self, rhs: Position) -> (r: Position)
        requires
            pos_le(rhs, self),
        ensures
            r.0 == self.0 - rhs.0,
            r.1 == self.1 - rhs.1,
    {
        Position(self.0 - rhs.0, self.1 - rhs.1)
    }

    pub fn min(p1: Position, p2: Position) -> (r: Position)
        ensures
            r == pos_min(p1, p2),
    {
        Position(
            if p1.0 <= p2.0 { p1.0 } else { p2.0 },
            if p1.1 <= p2.1 { p1.1 } else { p2.1 },
        )
    }

    pub fn max(p1: Position, p2: Position) -> (r: Position)
        ensures
            r == pos_max(p1, p2),
    {
        Position(
            if p1.0 >= p2.0 { p1.0 } else { p2.0 },
            if p1.1 >= p2.1 { p1.1 } else { p2.1 },
        )
    }
}

/// A point in world units (integer pixels), relative to the puzzle's origin.
#[derive(Debug, Clone, Copy, PartialEq, Eq, Structural)]
pub struct IVector2 {
    pub x: i64,
    pub y: i64,
}

impl View for IVector2 {
    type V = (int, int);

    open spec fn view(&self) -> (int, int) {
        (self.x as int, self.y as int)
    }
}

/// The multiple of the grid quantum nearest to `v`.
pub open spec fn snap(v: int) -> int {
    GLOBAL_GRID_SNAP * ((2 * v + GLOBAL_GRID_SNAP) / (2 * GLOBAL_GRID_SNAP))
}

/// `v` held within the grid coordinates that an `i64` can store.
pub open spec fn saturate(v: int) -> int {
    if v > MAX_GRID_COORD {
        MAX_GRID_COORD as int
    } else if v < -MAX_GRID_COORD {
        -MAX_GRID_COORD
    } else {
        v
    }
}

/// Offset that moves every value handled by `snap_saturate` to a non-negative one;
/// a multiple of twice the grid quantum.
const SNAP_SHIFT: u128 = 100_000_000_000_000_000_000;

/// Snaps `v` to the grid, then saturates it into `i64` range.
pub fn snap_saturate(v: i128) -> (r: i64)
    requires
        -100_000_000_000_000_000_000 < v < 100_000_000_000_000_000_000,
    ensures
        r == saturate(snap(v as int)),
{
    let w: u128 = (v + SNAP_SHIFT as i128) as u128;
    let q: u128 = (2 * w + 5) / 10;
    proof {
        let a: int = 2 * v + 5;
        let k: int = SNAP_SHIFT as int / 5;
        assert(2 * w + 5 == a + 10 * k);
        vstd::arithmetic::div_mod::lemma_fundamental_div_mod(a, 10);
        vstd::arithmetic::div_mod::lemma_fundamental_div_mod_converse(
            a + 10 * k,
            10,
            a / 10 + k,
            a % 10,
        );
    }
    let s: i128 = (5 * q) as i128 - SNAP_SHIFT as i128;
    if s > MAX_GRID_COORD as i128 {
        MAX_GRID_COORD
    } else if s < -(MAX_GRID_COORD as i128) {
        -MAX_GRID_COORD
    } else {
        s as i64
    }
}

} // verus!
