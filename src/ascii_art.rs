//! Puzzles drawn as text: each non-blank character is a tile of the shape named by
//! that character, and all of them together form the background target.

use vstd::prelude::*;

use crate::geometry::Position;
use crate::puzzles::{
    rebased, tiles_from_raw_positions, PuzzleDefinition, Shape, ShapeDefinition, TileDefinition,
};

verus! {

/// Bytes that count as blank: those whose Latin-1 character is white space
/// (tab, line feed, vertical tab, form feed, carriage return, space, next line, no-break space).
pub open spec fn is_blank(b: u8) -> bool {
    b == 9 || b == 10 || b == 11 || b == 12 || b == 13 || b == 32 || b == 0x85 || b == 0xa0
}

fn is_blank_byte(b: u8) -> (r: bool)
    ensures
        r == is_blank(b),
{
    b == 9 || b == 10 || b == 11 || b == 12 || b == 13 || b == 32 || b == 0x85 || b == 0xa0
}

/// Reads `text` line by line (lines end at `\n`) and byte by byte: the non-blank
/// bytes in reading order, each with its cell (column = byte offset within the
/// line, row = line number), followed by the current row and column.
pub open spec fn scan_art(text: Seq<u8>) -> (Seq<(u8, Position)>, nat, nat)
    decreases text.len(),
{
    if text.len() == 0 {
        (seq![], 0, 0)
    } else {
        let (cells, row, col) = scan_art(text.drop_last());
        let b = text.last();
        if b == 10 {
            (cells, row + 1, 0)
        } else if is_blank(b) {
            (cells, row, col + 1)
        } else {
            (cells.push((b, Position(col as usize, row as usize))), row, col + 1)
        }
    }
}

/// The non-blank cells of `text`, in reading order.
pub open spec fn art_cells(text: Seq<u8>) -> Seq<(u8, Position)> {
    scan_art(text).0
}

/// The distinct bytes of `cells`, in order of first appearance.
pub open spec fn first_seen(cells: Seq<(u8, Position)>) -> Seq<u8>
    decreases cells.len(),
{
    if cells.len() == 0 {
        seq![]
    } else {
        let keys = first_seen(cells.drop_last());
        if keys.contains(cells.last().0) {
            keys
        } else {
            keys.push(cells.last().0)
        }
    }
}

/// The cells holding byte `b`, in reading order.
pub open spec fn cells_of(cells: Seq<(u8, Position)>, b: u8) -> Seq<Position>
    decreases cells.len(),
{
    if cells.len() == 0 {
        seq![]
    } else {
        let rest = cells_of(cells.drop_last(), b);
        if cells.last().0 == b {
            rest.push(cells.last().1)
        } else {
            rest
        }
    }
}

/// All the cells, whatever byte they hold.
pub open spec fn cell_positions(cells: Seq<(u8, Position)>) -> Seq<Position> {
    cells.map_values(|c: (u8, Position)| c.1)
}

/// `s` is laid out automatically, has the given flag, and lists exactly `tiles`.
pub open spec fn is_raw_shape(s: ShapeDefinition, interactable: bool, tiles: Seq<TileDefinition>) -> bool {
    &&& s.pos is None
    &&& s.interactable == interactable
    &&& match s.tiles {
        Shape::RawTiles(v) => v@ == tiles,
        Shape::Rect(_, _) => false,
    }
}

/// Column and row never pass the number of bytes read.
proof fn lemma_scan_bounds(text: Seq<u8>)
    ensures
        scan_art(text).1 <= text.len(),
        scan_art(text).2 <= text.len(),
    decreases text.len(),
{
    if text.len() > 0 {
        lemma_scan_bounds(text.drop_last());
    }
}

fn contains_byte(keys: &Vec<u8>, b: u8) -> (r: bool)
    ensures
        r == keys@.contains(b),
{
    let n = keys.len();
    for i in 0..n
        invariant
            n == keys@.len(),
            forall|j: int| 0 <= j < i ==> keys@[j] != b,
    {
        if keys[i] == b {
            return true;
        }
    }
    false
}

impl PuzzleDefinition {
    /// Builds a puzzle from text art. The first shape is the background: every
    /// non-blank cell, not interactable. Then, for each distinct non-blank byte in
    /// order of first appearance, one interactable shape of the cells holding it.
    /// Each shape's tiles are re-based to its own top-left corner; all shapes are
    /// laid out automatically.
    pub fn from_ascii_art(name: String, art: String) -> (r: Self)
        ensures
            r.name == name,
            ({
                let cells = art_cells(vstd::utf8::encode_utf8(art@));
                let keys = first_seen(cells);
                &&& r.shapes@.len() == keys.len() + 1
                &&& is_raw_shape(r.shapes@[0], false, rebased(cell_positions(cells)))
                &&& forall|j: int|
                    0 <= j < keys.len() ==> is_raw_shape(
                        #[trigger] r.shapes@[j + 1],
                        true,
                        rebased(cells_of(cells, keys[j])),
                    )
            }),
    {
        let bytes = art.as_str().as_bytes();
        let n = bytes.len();
        let mut cells: Vec<(u8, Position)> = Vec::new();
        let mut row: usize = 0;
        let mut col: usize = 0;
        for i in 0..n
            invariant
                n == bytes@.len(),
                (cells@, row as nat, col as nat) == scan_art(bytes@.take(i as int)),
        {
            proof {
                assert(bytes@.take(i + 1).drop_last() =~= bytes@.take(i as int));
                lemma_scan_bounds(bytes@.take(i as int));
            }
            let b = bytes[i];
            if b == 10 {
                row = row + 1;
                col = 0;
            } else {
                if !is_blank_byte(b) {
                    cells.push((b, Position(col, row)));
                }
                col = col + 1;
            }
        }
        assert(bytes@.take(n as int) =~= bytes@);
        let ghost all = cells@;

        let mut background: Vec<Position> = Vec::new();
        let mut keys: Vec<u8> = Vec::new();
        let m = cells.len();
        for i in 0..m
            invariant
                m == cells@.len(),
                cells@ == all,
                background@ =~= cell_positions(all).take(i as int),
                keys@ == first_seen(all.take(i as int)),
        {
            let (b, p) = cells[i];
            assert(all.take(i + 1).drop_last() =~= all.take(i as int));
            background.push(p);
            if !contains_byte(&keys, b) {
                keys.push(b);
            }
        }
        assert(all.take(m as int) =~= all);
        assert(background@ =~= cell_positions(all));

        let mut shapes: Vec<ShapeDefinition> = Vec::new();
        shapes.push(
            ShapeDefinition {
                tiles: Shape::RawTiles(tiles_from_raw_positions(&background)),
                pos: None,
                interactable: false,
            },
        );
        let k = keys.len();
        for j in 0..k
            invariant
                k == keys@.len(),
                m == cells@.len(),
                cells@ == all,
                keys@ == first_seen(all),
                shapes@.len() == j + 1,
                is_raw_shape(shapes@[0], false, rebased(cell_positions(all))),
                forall|jj: int|
                    0 <= jj < j ==> is_raw_shape(
                        #[trigger] shapes@[jj + 1],
                        true,
                        rebased(cells_of(all, keys@[jj])),
                    ),
        {
            let key = keys[j];
            let mut group: Vec<Position> = Vec::new();
            for i in 0..m
                invariant
                    m == cells@.len(),
                    cells@ == all,
                    group@ == cells_of(all.take(i as int), key),
            {
                assert(all.take(i + 1).drop_last() =~= all.take(i as int));
                if cells[i].0 == key {
                    group.push(cells[i].1);
                }
            }
            assert(all.take(m as int) =~= all);
            shapes.push(
                ShapeDefinition {
                    tiles: Shape::RawTiles(tiles_from_raw_positions(&group)),
                    pos: None,
                    interactable: true,
                },
            );
        }
        PuzzleDefinition { name, shapes }
    }
}

} // verus!
