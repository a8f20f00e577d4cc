use vstd::prelude::*;
use vstd::arithmetic::div_mod::{lemma_fundamental_div_mod, lemma_fundamental_div_mod_converse};
use crate::coords::{ChunkCoords, TileCoords, TilePosition, chunk_point, chebyshev};
use crate::rings::{neighbor_points, ring_points, lemma_neighbor_points_len, lemma_ring_points_index};

verus! {

/// The sizes a square tile layout is made of: how many tiles a chunk holds
/// along each axis, and how many world units a tile spans along each axis.
pub struct LayoutDims {
    pub chunk_width: int,
    pub chunk_height: int,
    pub tile_width: int,
    pub tile_height: int,
}

impl LayoutDims {
    pub open spec fn valid(self) -> bool {
        &&& 1 <= self.chunk_width <= i32::MAX
        &&& 1 <= self.chunk_height <= i32::MAX
        &&& 1 <= self.tile_width <= i32::MAX
        &&& 1 <= self.tile_height <= i32::MAX
    }
}

/// A tile as four integers: chunk x, chunk y, x inside the chunk, y inside the chunk.
pub open spec fn tile_tuple(t: TileCoords) -> (int, int, int, int) {
    (t.chunk_x as int, t.chunk_y as int, t.local_x as int, t.local_y as int)
}

/// A map position as a pair of integers.
pub open spec fn position_pair(p: TilePosition) -> (int, int) {
    (p.x as int, p.y as int)
}

/// Whether the tile's place inside its chunk lies within the chunk.
pub open spec fn is_local(dims: LayoutDims, t: (int, int, int, int)) -> bool {
    &&& 0 <= t.2 < dims.chunk_width
    &&& 0 <= t.3 < dims.chunk_height
}

/// The position of a tile counted over the whole map.
pub open spec fn absolute_of(dims: LayoutDims, t: (int, int, int, int)) -> (int, int) {
    (t.0 * dims.chunk_width + t.2, t.1 * dims.chunk_height + t.3)
}

/// World coordinates (x, z) of a tile's corner.
pub open spec fn space_of(dims: LayoutDims, t: (int, int, int, int)) -> (int, int) {
    (absolute_of(dims, t).0 * dims.tile_width, absolute_of(dims, t).1 * dims.tile_height)
}

/// The tile at a map position: the chunk by floor division, the place inside
/// the chunk by the non-negative remainder.
pub open spec fn tile_of(dims: LayoutDims, p: (int, int)) -> (int, int, int, int) {
    (
        p.0 / dims.chunk_width,
        p.1 / dims.chunk_height,
        p.0 % dims.chunk_width,
        p.1 % dims.chunk_height,
    )
}

pub open spec fn in_i32(v: int) -> bool {
    i32::MIN <= v <= i32::MAX
}

/// Every intermediate value of computing `absolute_of` fits in an `i32`.
pub open spec fn absolute_fits(dims: LayoutDims, t: (int, int, int, int)) -> bool {
    &&& in_i32(t.0 * dims.chunk_width)
    &&& in_i32(t.1 * dims.chunk_height)
    &&& in_i32(absolute_of(dims, t).0)
    &&& in_i32(absolute_of(dims, t).1)
}

/// Every intermediate value of computing `space_of` fits in an `i32`.
pub open spec fn space_fits(dims: LayoutDims, t: (int, int, int, int)) -> bool {
    &&& absolute_fits(dims, t)
    &&& in_i32(space_of(dims, t).0)
    &&& in_i32(space_of(dims, t).1)
}

/// Enumerating the neighbours of `chunk` up to `distance` stays inside `i32`.
pub open spec fn neighbors_fit(chunk: ChunkCoords, distance: int) -> bool {
    &&& 2 * distance <= i32::MAX
    &&& in_i32(chunk.x - distance)
    &&& in_i32(chunk.x + distance)
    &&& in_i32(chunk.y - distance)
    &&& in_i32(chunk.y + distance)
}

/// The differences of two chunks' coordinates, and their absolute values,
/// fit in an `i32`.
pub open spec fn chunk_distance_fits(a: ChunkCoords, b: ChunkCoords) -> bool {
    &&& -i32::MAX <= a.x - b.x <= i32::MAX
    &&& -i32::MAX <= a.y - b.y <= i32::MAX
}

/// A layout of square tiles grouped in rectangular chunks.
pub struct SquareTileLayout {
    chunk_size: (u32, u32),
    tile_size: (i32, i32),
}

impl View for SquareTileLayout {
    type V = LayoutDims;

    closed spec fn view(&self) -> LayoutDims {
        LayoutDims {
            chunk_width: self.chunk_size.0 as int,
            chunk_height: self.chunk_size.1 as int,
            tile_width: self.tile_size.0 as int,
            tile_height: self.tile_size.1 as int,
        }
    }
}

impl SquareTileLayout {
    #[verifier::type_invariant]
    spec fn dims_valid(&self) -> bool {
        self@.valid()
    }
}

impl Default for SquareTileLayout {
    /// Chunks of 100 x 100 tiles, tiles of 10 x 10 world units.
    fn default() -> (layout: SquareTileLayout)
        ensures
            layout@ == (LayoutDims {
                chunk_width: 100,
                chunk_height: 100,
                tile_width: 10,
                tile_height: 10,
            }),
    {
        SquareTileLayout { chunk_size: (100u32, 100u32), tile_size: (10i32, 10i32) }
    }
}

impl SquareTileLayout {
    /// How many tiles a chunk holds along x and along y.
    pub fn chunk_size(&self) -> (size: (u32, u32))
        ensures
            size.0 == self@.chunk_width,
            size.1 == self@.chunk_height,
    {
        self.chunk_size
    }

    /// How many world units a tile spans along x and along z.
    pub fn tile_size(&self) -> (size: (i32, i32))
        ensures
            size.0 == self@.tile_width,
            size.1 == self@.tile_height,
    {
        self.tile_size
    }

    /// The chunk that holds a tile.
    pub fn tile_to_chunk(&self, tile: &TileCoords) -> (chunk: ChunkCoords)
        ensures
            chunk.x == tile.chunk_x,
            chunk.y == tile.chunk_y,
    {
        ChunkCoords { x: tile.chunk_x, y: tile.chunk_y }
    }

    /// The position of a tile counted over the whole map: its chunk times the
    /// chunk size, plus its place inside the chunk.
    pub fn tile_to_absolute(&self, tile: &TileCoords) -> (pos: TilePosition)
        requires
            absolute_fits(self@, tile_tuple(*tile)),
        ensures
            position_pair(pos) == absolute_of(self@, tile_tuple(*tile)),
    {
        proof {
            use_type_invariant(self);
        }
        let width = self.chunk_size.0 as i32;
        let height = self.chunk_size.1 as i32;
        TilePosition { x: tile.chunk_x * width + tile.local_x, y: tile.chunk_y * height + tile.local_y }
    }

    /// World coordinates `(x, z)` of a tile: its map position times the tile
    /// size. The tile lies on the ground plane, at height 0.
    pub fn tile_to_space(&self, tile: &TileCoords) -> (xz: (i32, i32))
        requires
            space_fits(self@, tile_tuple(*tile)),
        ensures
            (xz.0 as int, xz.1 as int) == space_of(self@, tile_tuple(*tile)),
    {
        let pos = self.tile_to_absolute(tile);
        (pos.x * self.tile_size.0, pos.y * self.tile_size.1)
    }

    /// The tile at a map position: the chunk is the position divided by the
    /// chunk size, rounded down; the place inside the chunk is what remains,
    /// never negative.
    pub fn absolute_to_tile(&self, pos: &TilePosition) -> (tile: TileCoords)
        ensures
            tile_tuple(tile) == tile_of(self@, position_pair(*pos)),
    {
        proof {
            use_type_invariant(self);
        }
        let width = self.chunk_size.0 as i32;
        let height = self.chunk_size.1 as i32;
        proof {
            lemma_quotient_in_i32(pos.x as int, width as int);
            lemma_quotient_in_i32(pos.y as int, height as int);
            lemma_fundamental_div_mod(pos.x as int, width as int);
            lemma_fundamental_div_mod(pos.y as int, height as int);
        }
        let chunk_x = pos.x.checked_div_euclid(width).unwrap();
        let chunk_y = pos.y.checked_div_euclid(height).unwrap();
        let local_x = pos.x.checked_rem_euclid(width).unwrap();
        let local_y = pos.y.checked_rem_euclid(height).unwrap();
        TileCoords { chunk_x, chunk_y, local_x, local_y }
    }

    /// The chunks around `chunk` up to Chebyshev distance `distance`, ring by
    /// ring outwards, each ring walked as `ring_points` describes. A distance
    /// above `i32::MAX` gives no chunk.
    pub fn get_chunk_neighbors(&self, chunk: &ChunkCoords, distance: u32) -> (neighbors: Vec<ChunkCoords>)
        requires
            distance <= i32::MAX ==> neighbors_fit(*chunk, distance as int),
        ensures
            distance > i32::MAX ==> neighbors@.len() == 0,
            distance <= i32::MAX ==> neighbors@.map_values(|n: ChunkCoords| chunk_point(n))
                == neighbor_points(chunk_point(*chunk), distance as nat),
            distance <= i32::MAX ==> neighbors@.len() == (2 * distance + 1) * (2 * distance + 1) - 1,
    {
        let mut neighbors: Vec<ChunkCoords> = Vec::new();
        if distance > 2147483647u32 {
            return neighbors;
        }
        let d = distance as i32;
        let ghost center = chunk_point(*chunk);
        let mut ring: i32 = 1;
        while ring <= d
            invariant
                1 <= ring <= d + 1,
                d == distance,
                center == chunk_point(*chunk),
                neighbors_fit(*chunk, d as int),
                neighbors@.map_values(|n: ChunkCoords| chunk_point(n)) == neighbor_points(
                    center,
                    (ring - 1) as nat,
                ),
            decreases d + 1 - ring,
        {
            let ghost before = neighbor_points(center, (ring - 1) as nat);
            let mut offset: i32 = 0;
            while offset < 2 * ring
                invariant
                    0 <= offset <= 2 * ring,
                    1 <= ring <= d,
                    d == distance,
                    center == chunk_point(*chunk),
                    neighbors_fit(*chunk, d as int),
                    before == neighbor_points(center, (ring - 1) as nat),
                    neighbors@.map_values(|n: ChunkCoords| chunk_point(n)) == before + ring_points(
                        center,
                        ring as int,
                    ).take(4 * offset),
                decreases 2 * ring - offset,
            {
                let ghost old_seq = neighbors@.map_values(|n: ChunkCoords| chunk_point(n));
                neighbors.push(ChunkCoords { x: chunk.x + (offset - ring), y: chunk.y - ring });
                neighbors.push(ChunkCoords { x: chunk.x + ring, y: chunk.y + (offset - ring) });
                neighbors.push(ChunkCoords { x: chunk.x + (ring - offset), y: chunk.y + ring });
                neighbors.push(ChunkCoords { x: chunk.x - ring, y: chunk.y + (ring - offset) });
                proof {
                    let r = ring as int;
                    let o = offset as int;
                    let rp = ring_points(center, r);
                    lemma_ring_points_index(center, r, o, 0);
                    lemma_ring_points_index(center, r, o, 1);
                    lemma_ring_points_index(center, r, o, 2);
                    lemma_ring_points_index(center, r, o, 3);
                    let new_seq = neighbors@.map_values(|n: ChunkCoords| chunk_point(n));
                    assert(new_seq =~= old_seq.push(rp[4 * o]).push(rp[4 * o + 1]).push(
                        rp[4 * o + 2],
                    ).push(rp[4 * o + 3]));
                    assert(rp.take(4 * o + 4) =~= rp.take(4 * o).push(rp[4 * o]).push(
                        rp[4 * o + 1],
                    ).push(rp[4 * o + 2]).push(rp[4 * o + 3]));
                    assert(new_seq =~= before + rp.take(4 * (o + 1)));
                }
                offset += 1;
            }
            proof {
                let rp = ring_points(center, ring as int);
                assert(rp.take(4 * (2 * ring)) =~= rp);
                assert(neighbor_points(center, ring as nat) == before + rp);
            }
            ring += 1;
        }
        proof {
            lemma_neighbor_points_len(center, distance as nat);
        }
        neighbors
    }

    /// The distance between two chunks: the larger of the differences of
    /// their x and of their y coordinates (Chebyshev distance), so every chunk
    /// listed by `get_chunk_neighbors` up to `d` lies within distance `d`.
    pub fn get_chunk_distance(&self, a: &ChunkCoords, b: &ChunkCoords) -> (dist: u32)
        requires
            chunk_distance_fits(*a, *b),
        ensures
            dist == chebyshev(chunk_point(*a), chunk_point(*b)),
    {
        let dx = a.x - b.x;
        let dy = a.y - b.y;
        let adx: u32 = if dx < 0 { (-dx) as u32 } else { dx as u32 };
        let ady: u32 = if dy < 0 { (-dy) as u32 } else { dy as u32 };
        if adx < ady { ady } else { adx }
    }

    /// Whether `tile_to_space` can compute the world coordinates of `tile`
    /// without leaving `i32`.
    pub fn tile_to_space_fits(&self, tile: &TileCoords) -> (fits: bool)
        ensures
            fits == space_fits(self@, tile_tuple(*tile)),
    {
        proof {
            use_type_invariant(self);
        }
        let cw = self.chunk_size.0 as i64;
        let ch = self.chunk_size.1 as i64;
        let tw = self.tile_size.0 as i64;
        let th = self.tile_size.1 as i64;
        proof {
            assert(-0x8000_0000 * 0x7fff_ffff <= tile.chunk_x * cw <= 0x7fff_ffff * 0x7fff_ffff)
                by (nonlinear_arith)
                requires
                    1 <= cw <= 0x7fff_ffff,
                    -0x8000_0000 <= tile.chunk_x <= 0x7fff_ffff,
            ;
            assert(-0x8000_0000 * 0x7fff_ffff <= tile.chunk_y * ch <= 0x7fff_ffff * 0x7fff_ffff)
                by (nonlinear_arith)
                requires
                    1 <= ch <= 0x7fff_ffff,
                    -0x8000_0000 <= tile.chunk_y <= 0x7fff_ffff,
            ;
        }
        let scaled_x = tile.chunk_x as i64 * cw;
        let scaled_y = tile.chunk_y as i64 * ch;
        if !(i32_fits(scaled_x) && i32_fits(scaled_y)) {
            return false;
        }
        let abs_x = scaled_x + tile.local_x as i64;
        let abs_y = scaled_y + tile.local_y as i64;
        if !(i32_fits(abs_x) && i32_fits(abs_y)) {
            return false;
        }
        proof {
            assert(-0x8000_0000 * 0x7fff_ffff <= abs_x * tw <= 0x7fff_ffff * 0x7fff_ffff)
                by (nonlinear_arith)
                requires
                    1 <= tw <= 0x7fff_ffff,
                    -0x8000_0000 <= abs_x <= 0x7fff_ffff,
            ;
            assert(-0x8000_0000 * 0x7fff_ffff <= abs_y * th <= 0x7fff_ffff * 0x7fff_ffff)
                by (nonlinear_arith)
                requires
                    1 <= th <= 0x7fff_ffff,
                    -0x8000_0000 <= abs_y <= 0x7fff_ffff,
            ;
        }
        i32_fits(abs_x * tw) && i32_fits(abs_y * th)
    }
}

fn i32_fits(v: i64) -> (fits: bool)
    ensures
        fits == in_i32(v as int),
{
    -0x8000_0000i64 <= v && v <= 0x7fff_ffffi64
}

/// Whether enumerating the neighbours of `chunk` up to `distance` stays
/// inside `i32`, as `get_chunk_neighbors` requires for a distance up to
/// `i32::MAX`.
pub fn neighbors_fit_check(chunk: &ChunkCoords, distance: u32) -> (fits: bool)
    ensures
        fits == neighbors_fit(*chunk, distance as int),
{
    let d = distance as i64;
    let x = chunk.x as i64;
    let y = chunk.y as i64;
    2 * d <= 0x7fff_ffffi64 && i32_fits(x - d) && i32_fits(x + d) && i32_fits(y - d) && i32_fits(y + d)
}

/// Whether the differences of two chunks' coordinates, and their absolute
/// values, fit in an `i32`, as `get_chunk_distance` requires.
pub fn chunk_distance_check(a: &ChunkCoords, b: &ChunkCoords) -> (fits: bool)
    ensures
        fits == chunk_distance_fits(*a, *b),
{
    let dx = a.x as i64 - b.x as i64;
    let dy = a.y as i64 - b.y as i64;
    -0x7fff_ffffi64 <= dx && dx <= 0x7fff_ffffi64 && -0x7fff_ffffi64 <= dy && dy <= 0x7fff_ffffi64
}

/// Dividing an `i32` by a positive divisor, rounding down, gives an `i32`,
/// and the remainder lies below the divisor.
proof fn lemma_quotient_in_i32(x: int, d: int)
    requires
        in_i32(x),
        1 <= d <= i32::MAX,
    ensures
        in_i32(x / d),
        0 <= x % d < d,
{
    lemma_fundamental_div_mod(x, d);
    let q = x / d;
    let r = x % d;
    assert(0 <= r < d);
    assert(in_i32(q)) by (nonlinear_arith)
        requires
            x == d * q + r,
            0 <= r < d,
            1 <= d,
            in_i32(x),
    ;
}

/// Splitting a tile's map position back into chunk and place gives the tile
/// again, for every tile whose place lies inside its chunk.
pub proof fn lemma_tile_round_trip(dims: LayoutDims, t: (int, int, int, int))
    requires
        dims.valid(),
        is_local(dims, t),
    ensures
        tile_of(dims, absolute_of(dims, t)) == t,
{
    let p = absolute_of(dims, t);
    lemma_fundamental_div_mod_converse(p.0, dims.chunk_width, t.0, t.2);
    lemma_fundamental_div_mod_converse(p.1, dims.chunk_height, t.1, t.3);
}

/// How map positions follow the tile: the first tile of chunk (0, 0) is at
/// (0, 0); one more tile along x inside a chunk moves one step along x and
/// leaves y; one more tile along y moves one step along y and leaves x; one
/// more chunk along x moves a whole chunk width along x and leaves y; one
/// more chunk along y moves a whole chunk height along y and leaves x.
pub proof fn lemma_absolute_steps(dims: LayoutDims, t: (int, int, int, int))
    ensures
        absolute_of(dims, (0, 0, 0, 0)) == (0int, 0int),
        absolute_of(dims, (t.0, t.1, t.2 + 1, t.3)) == (absolute_of(dims, t).0 + 1, absolute_of(
            dims,
            t,
        ).1),
        absolute_of(dims, (t.0, t.1, t.2, t.3 + 1)) == (absolute_of(dims, t).0, absolute_of(
            dims,
            t,
        ).1 + 1),
        absolute_of(dims, (t.0 + 1, t.1, t.2, t.3)) == (absolute_of(dims, t).0
            + dims.chunk_width, absolute_of(dims, t).1),
        absolute_of(dims, (t.0, t.1 + 1, t.2, t.3)) == (absolute_of(dims, t).0, absolute_of(
            dims,
            t,
        ).1 + dims.chunk_height),
{
    assert((t.0 + 1) * dims.chunk_width == t.0 * dims.chunk_width + dims.chunk_width)
        by (nonlinear_arith);
    assert((t.1 + 1) * dims.chunk_height == t.1 * dims.chunk_height + dims.chunk_height)
        by (nonlinear_arith);
}

/// How world coordinates follow the tile: the first tile of chunk (0, 0) is
/// at (x, z) = (0, 0); one more tile along x moves a tile width along x and
/// leaves z; one more tile along y moves a tile height along z and leaves x;
/// one more chunk along x moves a chunk width of tiles along x and leaves z;
/// one more chunk along y moves a chunk height of tiles along z and leaves x.
pub proof fn lemma_space_steps(dims: LayoutDims, t: (int, int, int, int))
    ensures
        space_of(dims, (0, 0, 0, 0)) == (0int, 0int),
        space_of(dims, (t.0, t.1, t.2 + 1, t.3)) == (space_of(dims, t).0 + dims.tile_width,
            space_of(dims, t).1),
        space_of(dims, (t.0, t.1, t.2, t.3 + 1)) == (space_of(dims, t).0, space_of(dims, t).1
            + dims.tile_height),
        space_of(dims, (t.0 + 1, t.1, t.2, t.3)) == (space_of(dims, t).0 + dims.chunk_width
            * dims.tile_width, space_of(dims, t).1),
        space_of(dims, (t.0, t.1 + 1, t.2, t.3)) == (space_of(dims, t).0, space_of(dims, t).1
            + dims.chunk_height * dims.tile_height),
{
    lemma_absolute_steps(dims, t);
    let a = absolute_of(dims, t);
    let w = dims.tile_width;
    let h = dims.tile_height;
    assert((a.0 + 1) * w == a.0 * w + w) by (nonlinear_arith);
    assert((a.1 + 1) * h == a.1 * h + h) by (nonlinear_arith);
    assert((a.0 + dims.chunk_width) * w == a.0 * w + dims.chunk_width * w) by (nonlinear_arith);
    assert((a.1 + dims.chunk_height) * h == a.1 * h + dims.chunk_height * h)
        by (nonlinear_arith);
    assert(0 * w == 0) by (nonlinear_arith);
    assert(0 * h == 0) by (nonlinear_arith);
}

/// The tile at a map position is given by Euclidean division of each
/// coordinate by the chunk size along the same axis: x is the chunk x times
/// the chunk width plus the place x, with the place x in `0..chunk_width`,
/// and y likewise with the chunk height.
pub proof fn lemma_tile_of_division(dims: LayoutDims, p: (int, int))
    requires
        dims.valid(),
    ensures
        0 <= tile_of(dims, p).2 < dims.chunk_width,
        0 <= tile_of(dims, p).3 < dims.chunk_height,
        tile_of(dims, p).0 * dims.chunk_width + tile_of(dims, p).2 == p.0,
        tile_of(dims, p).1 * dims.chunk_height + tile_of(dims, p).3 == p.1,
{
    lemma_fundamental_div_mod(p.0, dims.chunk_width);
    lemma_fundamental_div_mod(p.1, dims.chunk_height);
    let q = tile_of(dims, p);
    assert(q.0 * dims.chunk_width == dims.chunk_width * q.0) by (nonlinear_arith);
    assert(q.1 * dims.chunk_height == dims.chunk_height * q.1) by (nonlinear_arith);
}

/// Every map position splits into a chunk and a place inside the chunk, and
/// joining them gives the position again.
pub proof fn lemma_position_round_trip(dims: LayoutDims, p: (int, int))
    requires
        dims.valid(),
    ensures
        is_local(dims, tile_of(dims, p)),
        absolute_of(dims, tile_of(dims, p)) == p,
{
    lemma_fundamental_div_mod(p.0, dims.chunk_width);
    lemma_fundamental_div_mod(p.1, dims.chunk_height);
    let q = tile_of(dims, p);
    assert(q.0 * dims.chunk_width == dims.chunk_width * q.0) by (nonlinear_arith);
    assert(q.1 * dims.chunk_height == dims.chunk_height * q.1) by (nonlinear_arith);
}

} // verus!
