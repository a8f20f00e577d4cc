use vstd::prelude::*;
use crate::coords::{ChunkCoords, chunk_point, chebyshev};
use crate::rings::{neighbor_points, lemma_neighbor_points_contains, lemma_neighbor_points_distinct, lemma_neighbor_points_len};
use crate::terrain::{SquareTileLayout, neighbors_fit};

verus! {

/// How far around a chunk site its neighbouring chunks are loaded.
pub const CHUNK_LOAD_DISTANCE: u32 = 2u32;

/// A place in the world around which chunks are kept loaded.
pub struct ChunkSiteComponent<C> {
    /// The chunk the site stood on when chunks were last loaded for it.
    pub last_loaded_chunk: Option<C>,
    /// Whether the site has moved since chunks were last loaded for it.
    pub fresh: bool,
}

impl<C> Default for ChunkSiteComponent<C> {
    fn default() -> (site: Self)
        ensures
            site.last_loaded_chunk is None,
            !site.fresh,
    {
        ChunkSiteComponent { last_loaded_chunk: None, fresh: false }
    }
}

/// Marks an entity as a layer of the tile map.
pub struct LayerComponent<L> {
    pub layer: L,
}

/// The chunks to load for a site standing on `current`: its neighbours up
/// to `CHUNK_LOAD_DISTANCE`, ring by ring, then `current` itself.
pub open spec fn planned_points(current: ChunkCoords) -> Seq<(int, int)> {
    neighbor_points(chunk_point(current), CHUNK_LOAD_DISTANCE as nat).push(chunk_point(current))
}

/// What the chunk spawner decides for one site in one frame. A site that has
/// not moved needs nothing and stays as it is. A site that has moved gets
/// the chunks of `planned_points` to spawn, on every layer, and is marked as
/// loaded at `current_chunk`, the chunk it stands on.
pub fn plan_chunk_spawns(
    layout: &SquareTileLayout,
    site: &mut ChunkSiteComponent<ChunkCoords>,
    current_chunk: ChunkCoords,
) -> (chunks: Vec<ChunkCoords>)
    requires
        old(site).fresh ==> neighbors_fit(current_chunk, CHUNK_LOAD_DISTANCE as int),
    ensures
        !old(site).fresh ==> chunks@.len() == 0 && *final(site) == *old(site),
        old(site).fresh ==> {
            &&& !final(site).fresh
            &&& final(site).last_loaded_chunk == Some(current_chunk)
            &&& chunks@.map_values(|n: ChunkCoords| chunk_point(n)) == planned_points(current_chunk)
        },
{
    if !site.fresh {
        return Vec::new();
    }
    let mut chunks = layout.get_chunk_neighbors(&current_chunk, CHUNK_LOAD_DISTANCE);
    let ghost before = chunks@;
    chunks.push(current_chunk);
    proof {
        assert(chunks@.map_values(|n: ChunkCoords| chunk_point(n)) =~= before.map_values(
            |n: ChunkCoords| chunk_point(n),
        ).push(chunk_point(current_chunk)));
    }
    site.fresh = false;
    site.last_loaded_chunk = Some(current_chunk);
    chunks
}

/// The chunks planned for a site are exactly the square of side
/// `2 * CHUNK_LOAD_DISTANCE + 1` centred on the site's chunk, each once.
pub proof fn lemma_planned_chunks_square(current: ChunkCoords, p: (int, int))
    ensures
        planned_points(current).contains(p) <==> chebyshev(p, chunk_point(current))
            <= CHUNK_LOAD_DISTANCE,
        planned_points(current).no_duplicates(),
        planned_points(current).len() == (2 * CHUNK_LOAD_DISTANCE + 1) * (2
            * CHUNK_LOAD_DISTANCE + 1),
{
    let c = chunk_point(current);
    let d = CHUNK_LOAD_DISTANCE as nat;
    let ring = neighbor_points(c, d);
    let all = planned_points(current);
    lemma_neighbor_points_contains(c, d, p);
    lemma_neighbor_points_contains(c, d, c);
    lemma_neighbor_points_distinct(c, d);
    lemma_neighbor_points_len(c, d);
    if all.contains(p) {
        let k = choose|k: int| 0 <= k < all.len() && all[k] == p;
        if k < ring.len() {
            assert(ring[k] == p);
        }
    }
    if chebyshev(p, c) <= d {
        if p == c {
            assert(all[ring.len() as int] == p);
        } else {
            let k = choose|k: int| 0 <= k < ring.len() && ring[k] == p;
            assert(all[k] == p);
        }
    }
    assert forall|i: int, j: int|
        0 <= i < all.len() && 0 <= j < all.len() && i != j implies all[i] != all[j] by {
        if i < ring.len() && j == ring.len() {
            assert(ring.contains(ring[i]));
            lemma_neighbor_points_contains(c, d, ring[i]);
        } else if j < ring.len() && i == ring.len() {
            assert(ring.contains(ring[j]));
            lemma_neighbor_points_contains(c, d, ring[j]);
        }
    }
}

} // verus!
