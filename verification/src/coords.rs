use vstd::prelude::*;

verus! {

/// Position of a chunk on the chunk grid.
#[derive(Clone, Copy, Debug, PartialEq, Eq, Structural)]
pub struct ChunkCoords {
    pub x: i32,
    pub y: i32,
}

/// Position of a tile: the chunk that holds it (`chunk_x`, `chunk_y`) and
/// its place inside that chunk (`local_x`, `local_y`).
#[derive(Clone, Copy, Debug, PartialEq, Eq, Structural)]
pub struct TileCoords {
    pub chunk_x: i32,
    pub chunk_y: i32,
    pub local_x: i32,
    pub local_y: i32,
}

/// Position of a tile counted over the whole map, ignoring chunks.
#[derive(Clone, Copy, Debug, PartialEq, Eq, Structural)]
pub struct TilePosition {
    pub x: i32,
    pub y: i32,
}

/// A chunk position as a pair of mathematical integers.
pub open spec fn chunk_point(c: ChunkCoords) -> (int, int) {
    (c.x as int, c.y as int)
}

pub open spec fn abs_int(v: int) -> int {
    if v < 0 { -v } else { v }
}

/// Chebyshev (chessboard) distance between two grid points: the larger of
/// the two coordinate differences.
pub open spec fn chebyshev(a: (int, int), b: (int, int)) -> int {
    let dx = abs_int(a.0 - b.0);
    let dy = abs_int(a.1 - b.1);
    if dx < dy { dy } else { dx }
}

impl ChunkCoords {
    pub fn new(x: i32, y: i32) -> (c: ChunkCoords)
        ensures
            c.x == x,
            c.y == y,
    {
        ChunkCoords { x, y }
    }
}

impl TileCoords {
    pub fn new(chunk_x: i32, chunk_y: i32, local_x: i32, local_y: i32) -> (t: TileCoords)
        ensures
            t.chunk_x == chunk_x,
            t.chunk_y == chunk_y,
            t.local_x == local_x,
            t.local_y == local_y,
    {
        TileCoords { chunk_x, chunk_y, local_x, local_y }
    }
}

impl TilePosition {
    pub fn new(x: i32, y: i32) -> (p: TilePosition)
        ensures
            p.x == x,
            p.y == y,
    {
        TilePosition { x, y }
    }
}

} // verus!
