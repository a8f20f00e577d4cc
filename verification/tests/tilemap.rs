use biology::coords::ChunkCoords;
use biology::terrain::SquareTileLayout;
use biology::tilemap::{plan_chunk_spawns, ChunkSiteComponent, CHUNK_LOAD_DISTANCE};

#[test]
fn default_site_is_not_fresh() {
    let site: ChunkSiteComponent<ChunkCoords> = ChunkSiteComponent::default();
    assert!(!site.fresh);
    assert!(site.last_loaded_chunk.is_none());
}

#[test]
fn site_that_did_not_move_spawns_nothing() {
    let layout = SquareTileLayout::default();
    let mut site = ChunkSiteComponent { last_loaded_chunk: Some(ChunkCoords::new(1, 1)), fresh: false };
    let chunks = plan_chunk_spawns(&layout, &mut site, ChunkCoords::new(5, 5));
    assert!(chunks.is_empty());
    assert!(!site.fresh);
    assert_eq!(site.last_loaded_chunk, Some(ChunkCoords::new(1, 1)));
}

#[test]
fn fresh_site_loads_the_square_around_it() {
    let layout = SquareTileLayout::default();
    let current = ChunkCoords::new(-7, 3);
    let mut site = ChunkSiteComponent { last_loaded_chunk: None, fresh: true };
    let chunks = plan_chunk_spawns(&layout, &mut site, current);
    assert_eq!(CHUNK_LOAD_DISTANCE, 2);
    assert_eq!(chunks.len(), 25);
    assert_eq!(*chunks.last().unwrap(), current);
    for dx in -2..=2 {
        for dy in -2..=2 {
            let c = ChunkCoords::new(current.x + dx, current.y + dy);
            assert_eq!(chunks.iter().filter(|&&n| n == c).count(), 1);
        }
    }
    assert!(!site.fresh);
    assert_eq!(site.last_loaded_chunk, Some(current));
    let again = plan_chunk_spawns(&layout, &mut site, current);
    assert!(again.is_empty());
}

#[test]
fn planned_chunks_start_with_the_neighbors() {
    let layout = SquareTileLayout::default();
    let current = ChunkCoords::new(0, 0);
    let mut site = ChunkSiteComponent { last_loaded_chunk: None, fresh: true };
    let chunks = plan_chunk_spawns(&layout, &mut site, current);
    let neighbors = layout.get_chunk_neighbors(&current, CHUNK_LOAD_DISTANCE);
    assert_eq!(&chunks[..24], &neighbors[..]);
}
