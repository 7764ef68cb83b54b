//! The declarative puzzle model: shapes made of tiles, as a puzzle author writes them.

use vstd::prelude::*;

use crate::geometry::{pos_le, pos_max, pos_min, Position};

verus! {

/// Largest tile coordinate (and rectangle side) that layout accepts; together
/// with `MAX_SHAPES` it keeps every world coordinate well inside `i64`.
pub const MAX_COORD: usize = 1_000_000;

/// Largest number of shapes that layout accepts.
pub const MAX_SHAPES: usize = 1_000_000;

/// Foreground tiles are the movable solution; background tiles are the fixed target.
#[derive(Debug, Clone, Copy, PartialEq, Eq, Structural)]
pub enum TileType {
    Foreground,
    Background,
}

/// The tile type that a shape gives its tiles by default.
pub open spec fn default_tile_type(interactable: bool) -> TileType {
    if interactable {
        TileType::Foreground
    } else {
        TileType::Background
    }
}

/// The type a tile of the other kind has.
pub open spec fn opposite(t: TileType) -> TileType {
    match t {
        TileType::Foreground => TileType::Background,
        TileType::Background => TileType::Foreground,
    }
}

impl TileType {
    pub fn from_interactable(interactable: bool) -> (r: TileType)
        ensures
            r == default_tile_type(interactable),
    {
        if interactable {
            TileType::Foreground
        } else {
            TileType::Background
        }
    }
}

/// One tile of a shape, at a local grid position; without a type it takes the shape's default.
#[derive(Debug, Clone, Copy, PartialEq, Eq, Structural)]
pub struct TileDefinition {
    pub pos: Position,
    pub tile_type: Option<TileType>,
}

/// How a shape's tiles are given: an explicit list, or a filled `width` x `height` rectangle.
#[derive(Debug, Clone, PartialEq, Eq)]
pub enum Shape {
    RawTiles(Vec<TileDefinition>),
    Rect(usize, usize),
}

/// A shape as declared: a fixed position or none (laid out automatically),
/// whether the player may move it, and its tiles.
#[derive(Debug, Clone, PartialEq, Eq)]
pub struct ShapeDefinition {
    pub pos: Option<Position>,
    pub interactable: bool,
    pub tiles: Shape,
}

/// A named puzzle: its shapes in declaration order.
#[derive(Debug, Clone, PartialEq, Eq)]
pub struct PuzzleDefinition {
    pub name: String,
    pub shapes: Vec<ShapeDefinition>,
}

/// The default of a shape's `interactable` flag.
pub fn bool_true() -> (r: bool)
    ensures
        r,
{
    true
}

/// The tiles of a `width` x `height` rectangle, column by column: tile `k` sits
/// at `(k / height, k % height)`.
pub open spec fn rect_tiles(width: usize, height: usize) -> Seq<TileDefinition> {
    Seq::new(
        (width * height) as nat,
        |k: int| TileDefinition { pos: Position((k / (height as int)) as usize, (k % (height as int)) as usize), tile_type: None },
    )
}

/// Index of cell `(x, y)` among the tiles of a rectangle of the given height.
pub open spec fn rect_index(x: usize, y: usize, height: usize) -> int {
    x * height + y
}

/// Where tile `k` of a rectangle of the given height sits, within the rectangle's bounds.
proof fn lemma_rect_index(k: int, width: usize, height: usize)
    requires
        height >= 1,
        0 <= k < width * height,
    ensures
        0 <= k / (height as int) < width,
        0 <= k % (height as int) < height,
        k == (k / (height as int)) * height + k % (height as int),
{
    vstd::arithmetic::div_mod::lemma_fundamental_div_mod(k, (height as int));
    let q = k / (height as int);
    let r = k % (height as int);
    assert(q * height == height * q) by (nonlinear_arith);
    assert(0 <= q) by (nonlinear_arith)
        requires
            k == height * q + r,
            0 <= r < height,
            0 <= k,
            height >= 1,
    ;
    assert(q < width) by (nonlinear_arith)
        requires
            k == height * q + r,
            0 <= r < height,
            k < width * height,
            height >= 1,
    ;
}

/// A `width` x `height` rectangle resolves to exactly `width * height` tiles, none
/// with a type of its own: each cell of the rectangle exactly once (cell `(x, y)`
/// at `rect_index(x, y, height)`), and no cell outside it.
pub proof fn lemma_rect_tiles_cover(width: usize, height: usize)
    requires
        width >= 1,
        height >= 1,
    ensures
        rect_tiles(width, height).len() == width * height,
        forall|k: int|
            0 <= k < rect_tiles(width, height).len() ==> {
                let t = #[trigger] rect_tiles(width, height)[k];
                &&& t.tile_type is None
                &&& t.pos.0 < width
                &&& t.pos.1 < height
            },
        forall|x: usize, y: usize|
            x < width && y < height ==> {
                &&& 0 <= rect_index(x, y, height) < rect_tiles(width, height).len()
                &&& rect_tiles(width, height)[#[trigger] rect_index(x, y, height)].pos == Position(x, y)
            },
        forall|k1: int, k2: int|
            0 <= k1 < rect_tiles(width, height).len() && 0 <= k2 < rect_tiles(width, height).len()
                && k1 != k2 ==> #[trigger] rect_tiles(width, height)[k1].pos != #[trigger] rect_tiles(
                width,
                height,
            )[k2].pos,
{
    let ts = rect_tiles(width, height);
    assert(0 <= width * height) by (nonlinear_arith)
        requires
            width >= 1,
            height >= 1,
    ;
    assert forall|k: int| 0 <= k < ts.len() implies {
        let t = #[trigger] ts[k];
        &&& t.tile_type is None
        &&& t.pos.0 < width
        &&& t.pos.1 < height
    } by {
        lemma_rect_index(k, width, height);
    }
    assert forall|x: usize, y: usize| x < width && y < height implies {
        &&& 0 <= rect_index(x, y, height) < ts.len()
        &&& ts[#[trigger] rect_index(x, y, height)].pos == Position(x, y)
    } by {
        assert(x * height + y < width * height) by (nonlinear_arith)
            requires
                x < width,
                y < height,
        ;
        assert(0 <= x * height) by (nonlinear_arith);
        vstd::arithmetic::div_mod::lemma_fundamental_div_mod_converse(
            x * height + y,
            (height as int),
            x as int,
            y as int,
        );
        let k = x * height + y;
        assert(ts[k].pos.0 == x);
        assert(ts[k].pos.1 == y);
    }
    assert forall|k1: int, k2: int|
        0 <= k1 < ts.len() && 0 <= k2 < ts.len() && k1 != k2 implies #[trigger] ts[k1].pos
        != #[trigger] ts[k2].pos by {
        lemma_rect_index(k1, width, height);
        lemma_rect_index(k2, width, height);
    }
}

/// The tiles a shape specification stands for.
pub open spec fn spec_tiles(s: Shape) -> Seq<TileDefinition> {
    match s {
        Shape::RawTiles(v) => v@,
        Shape::Rect(w, h) => rect_tiles(w, h),
    }
}

/// The positions of a sequence of tiles.
pub open spec fn tile_positions(ts: Seq<TileDefinition>) -> Seq<Position> {
    ts.map_values(|t: TileDefinition| t.pos)
}

/// Componentwise minimum of a non-empty sequence of positions (the origin when empty).
pub open spec fn min_pos(ps: Seq<Position>) -> Position
    decreases ps.len(),
{
    if ps.len() == 0 {
        Position(0, 0)
    } else if ps.len() == 1 {
        ps[0]
    } else {
        pos_min(min_pos(ps.drop_last()), ps.last())
    }
}

/// Componentwise maximum of a non-empty sequence of positions (the origin when empty).
pub open spec fn max_pos(ps: Seq<Position>) -> Position
    decreases ps.len(),
{
    if ps.len() == 0 {
        Position(0, 0)
    } else if ps.len() == 1 {
        ps[0]
    } else {
        pos_max(max_pos(ps.drop_last()), ps.last())
    }
}

/// The minimum lies at or above-left of every position, the maximum at or below-right.
pub proof fn lemma_min_max_pos_bound(ps: Seq<Position>)
    ensures
        forall|i: int| 0 <= i < ps.len() ==> pos_le(min_pos(ps), #[trigger] ps[i]),
        forall|i: int| 0 <= i < ps.len() ==> pos_le(#[trigger] ps[i], max_pos(ps)),
    decreases ps.len(),
{
    if ps.len() > 1 {
        lemma_min_max_pos_bound(ps.drop_last());
        assert forall|i: int| 0 <= i < ps.len() implies pos_le(min_pos(ps), #[trigger] ps[i]) && pos_le(
            ps[i],
            max_pos(ps),
        ) by {
            if i < ps.len() - 1 {
                assert(ps[i] == ps.drop_last()[i]);
            }
        }
    }
}

/// A bound that holds of every position holds of their maximum.
pub proof fn lemma_max_pos_within(ps: Seq<Position>)
    requires
        forall|i: int| 0 <= i < ps.len() ==> coord_ok(#[trigger] ps[i]),
    ensures
        coord_ok(max_pos(ps)),
    decreases ps.len(),
{
    if ps.len() > 1 {
        assert forall|i: int| 0 <= i < ps.len() - 1 implies coord_ok(#[trigger] ps.drop_last()[i]) by {
            assert(ps.drop_last()[i] == ps[i]);
        }
        lemma_max_pos_within(ps.drop_last());
        assert(coord_ok(ps[ps.len() - 1]));
    } else if ps.len() == 1 {
        assert(coord_ok(ps[0]));
    }
}

/// Positions re-based so that their componentwise minimum moves to the origin,
/// as untyped tiles.
pub open spec fn rebased(ps: Seq<Position>) -> Seq<TileDefinition> {
    ps.map_values(
        |p: Position|
            TileDefinition {
                pos: Position((p.0 - min_pos(ps).0) as usize, (p.1 - min_pos(ps).1) as usize),
                tile_type: None,
            },
    )
}

/// Componentwise minimum of `ps`, computed by one pass.
pub fn min_position(ps: &Vec<Position>) -> (r: Position)
    ensures
        r == min_pos(ps@),
{
    if ps.len() == 0 {
        return Position(0, 0);
    }
    let mut m = ps[0];
    let n = ps.len();
    assert(ps@.take(1) =~= seq![ps@[0]]);
    for i in 1..n
        invariant
            n == ps@.len(),
            m == min_pos(ps@.take(i as int)),
    {
        m = Position::min(m, ps[i]);
        assert(ps@.take(i + 1).drop_last() =~= ps@.take(i as int));
    }
    assert(ps@.take(n as int) =~= ps@);
    m
}

/// Componentwise maximum of `ps`, computed by one pass.
pub fn max_position(ps: &Vec<Position>) -> (r: Position)
    ensures
        r == max_pos(ps@),
{
    if ps.len() == 0 {
        return Position(0, 0);
    }
    let mut m = ps[0];
    let n = ps.len();
    assert(ps@.take(1) =~= seq![ps@[0]]);
    for i in 1..n
        invariant
            n == ps@.len(),
            m == max_pos(ps@.take(i as int)),
    {
        m = Position::max(m, ps[i]);
        assert(ps@.take(i + 1).drop_last() =~= ps@.take(i as int));
    }
    assert(ps@.take(n as int) =~= ps@);
    m
}

/// Untyped tiles at `raw_positions`, re-based so that their top-left-most corner is the origin.
pub fn tiles_from_raw_positions(raw_positions: &Vec<Position>) -> (r: Vec<TileDefinition>)
    ensures
        r@ == rebased(raw_positions@),
{
    let tl_pos = min_position(raw_positions);
    proof {
        lemma_min_max_pos_bound(raw_positions@);
    }
    let mut out: Vec<TileDefinition> = Vec::new();
    let n = raw_positions.len();
    for i in 0..n
        invariant
            n == raw_positions@.len(),
            tl_pos == min_pos(raw_positions@),
            forall|j: int| 0 <= j < n ==> pos_le(tl_pos, #[trigger] raw_positions@[j]),
            out@ =~= rebased(raw_positions@).take(i as int),
    {
        let p = raw_positions[i];
        assert(pos_le(tl_pos, raw_positions@[i as int]));
        out.push(TileDefinition { pos: p.sub(tl_pos), tile_type: None });
    }
    out
}

/// Every position lies within `MAX_COORD` on both axes.
pub open spec fn coord_ok(p: Position) -> bool {
    p.0 <= MAX_COORD && p.1 <= MAX_COORD
}

impl ShapeDefinition {
    /// The shape's tiles, rectangles expanded.
    pub open spec fn spec_get_tiles(&self) -> Seq<TileDefinition> {
        spec_tiles(self.tiles)
    }

    /// Coordinates small enough for layout.
    pub open spec fn within_limits(&self) -> bool {
        &&& (self.pos matches Some(p) ==> coord_ok(p))
        &&& match self.tiles {
            Shape::RawTiles(v) => forall|k: int| 0 <= k < v@.len() ==> coord_ok(#[trigger] v@[k].pos),
            Shape::Rect(w, h) => w <= MAX_COORD && h <= MAX_COORD,
        }
    }

    /// Resolves the specification into its tiles: an explicit list as it stands,
    /// a rectangle as one tile per cell, column by column, with no type of its own.
    pub fn get_tiles(&self) -> (r: Vec<TileDefinition>)
        ensures
            r@ == self.spec_get_tiles(),
    {
        match &self.tiles {
            Shape::RawTiles(tiles) => {
                let mut out: Vec<TileDefinition> = Vec::new();
                let n = tiles.len();
                for i in 0..n
                    invariant
                        n == tiles@.len(),
                        out@ == tiles@.take(i as int),
                {
                    out.push(tiles[i]);
                    assert(tiles@.take(i + 1) =~= tiles@.take(i as int).push(tiles@[i as int]));
                }
                assert(tiles@.take(n as int) =~= tiles@);
                out
            },
            Shape::Rect(width, height) => {
                let width = *width;
                let height = *height;
                let mut out: Vec<TileDefinition> = Vec::new();
                proof {
                    assert(0 * height == 0 && 0 <= width * height) by (nonlinear_arith);
                    assert(rect_tiles(width, height).take(0) =~= Seq::<TileDefinition>::empty());
                }
                for x in 0..width
                    invariant
                        out@ =~= rect_tiles(width, height).take(x * height),
                        x * height <= width * height,
                {
                    proof {
                        vstd::arithmetic::mul::lemma_mul_inequality(x + 1, width as int, (height as int));
                        vstd::arithmetic::mul::lemma_mul_is_distributive_add_other_way(height as int, x as int, 1);
                    }
                    for y in 0..height
                        invariant
                            x < width,
                            (x + 1) * height <= width * height,
                            (x + 1) * height == x * height + height,
                            out@ =~= rect_tiles(width, height).take(x * height + y),
                    {
                        proof {
                            let k = x * height + y;
                            vstd::arithmetic::div_mod::lemma_fundamental_div_mod_converse(
                                k,
                                (height as int),
                                x as int,
                                y as int,
                            );
                            assert(rect_tiles(width, height).take(k + 1) =~= rect_tiles(width, height).take(
                                k,
                            ).push(TileDefinition { pos: Position(x, y), tile_type: None }));
                        }
                        out.push(TileDefinition { pos: Position(x, y), tile_type: None });
                    }
                }
                proof {
                    assert(rect_tiles(width, height).take(width * height) =~= rect_tiles(width, height));
                }
                out
            },
        }
    }
}

impl PuzzleDefinition {
    /// Coordinates and shape count small enough for layout.
    pub open spec fn within_limits(&self) -> bool {
        &&& self.shapes@.len() <= MAX_SHAPES
        &&& forall|i: int| 0 <= i < self.shapes@.len() ==> (#[trigger] self.shapes@[i]).within_limits()
    }

    /// Whether the definition is small enough for layout.
    pub fn fits_limits(&self) -> (r: bool)
        ensures
            r == self.within_limits(),
    {
        if self.shapes.len() > MAX_SHAPES {
            return false;
        }
        let n = self.shapes.len();
        for i in 0..n
            invariant
                n == self.shapes@.len(),
                forall|j: int| 0 <= j < i ==> (#[trigger] self.shapes@[j]).within_limits(),
        {
            if !self.shapes[i].fits_limits() {
                assert(!self.shapes@[i as int].within_limits());
                return false;
            }
        }
        true
    }
}

impl ShapeDefinition {
    /// Whether the shape is small enough for layout.
    pub fn fits_limits(&self) -> (r: bool)
        ensures
            r == self.within_limits(),
    {
        if let Some(p) = self.pos {
            if p.0 > MAX_COORD || p.1 > MAX_COORD {
                return false;
            }
        }
        match &self.tiles {
            Shape::RawTiles(tiles) => {
                let n = tiles.len();
                for k in 0..n
                    invariant
                        n == tiles@.len(),
                        self.tiles == Shape::RawTiles(*tiles),
                        forall|j: int| 0 <= j < k ==> coord_ok(#[trigger] tiles@[j].pos),
                {
                    if tiles[k].pos.0 > MAX_COORD || tiles[k].pos.1 > MAX_COORD {
                        assert(!coord_ok(tiles@[k as int].pos));
                        return false;
                    }
                }
                true
            },
            Shape::Rect(w, h) => *w <= MAX_COORD && *h <= MAX_COORD,
        }
    }
}

} // verus!
