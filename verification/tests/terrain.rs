use biology::coords::{ChunkCoords, TileCoords, TilePosition};
use biology::terrain::{chunk_distance_check, neighbors_fit_check, SquareTileLayout};

fn sample_chunks() -> Vec<ChunkCoords> {
    vec![
        ChunkCoords::new(0, 0),
        ChunkCoords::new(-1000, 999),
        ChunkCoords::new(7, -3),
        ChunkCoords::new(-999, -1000),
        ChunkCoords::new(512, 64),
    ]
}

fn chebyshev(a: &ChunkCoords, b: &ChunkCoords) -> i64 {
    let dx = (a.x as i64 - b.x as i64).abs();
    let dy = (a.y as i64 - b.y as i64).abs();
    dx.max(dy)
}

#[test]
fn chunk_should_have_appropriate_number_of_neighbors() {
    let layout = SquareTileLayout::default();
    for chunk in sample_chunks() {
        for distance in [1u32, 2, 3, 17, 100] {
            let count = layout.get_chunk_neighbors(&chunk, distance).len();
            let expected = ((distance * 2) + 1) * ((distance * 2) + 1) - 1;
            assert_eq!(expected, count as u32);
        }
    }
}

#[test]
fn neighbor_should_have_correct_distance() {
    let layout = SquareTileLayout::default();
    for chunk in sample_chunks() {
        for distance in [1u32, 2, 5, 100] {
            let neighbors = layout.get_chunk_neighbors(&chunk, distance);
            let max_distance: f32 = (distance as f32 * distance as f32).sqrt();
            for neighbor in neighbors.iter() {
                let distance = layout.get_chunk_distance(&chunk, &neighbor);
                assert!(
                    distance as f32 <= max_distance,
                    "Max: {:?}, Actual: {:?}",
                    max_distance,
                    distance
                );
            }
        }
    }
}

#[test]
fn neighbor_should_be_mutual() {
    let layout = SquareTileLayout::default();
    for chunk in sample_chunks() {
        for distance in [1u32, 2, 4] {
            let neighbors = layout.get_chunk_neighbors(&chunk, distance);
            for neighbor in neighbors.iter() {
                let ns = layout.get_chunk_neighbors(neighbor, distance);
                assert!(ns.iter().any(|&n| n == chunk));
            }
        }
    }
}

#[test]
fn neighbors_are_distinct_and_exclude_center() {
    let layout = SquareTileLayout::default();
    let chunk = ChunkCoords::new(3, -4);
    let neighbors = layout.get_chunk_neighbors(&chunk, 3);
    for (i, a) in neighbors.iter().enumerate() {
        assert_ne!(*a, chunk);
        for b in neighbors.iter().skip(i + 1) {
            assert_ne!(a, b);
        }
    }
}

#[test]
fn neighbors_of_distance_one_in_order() {
    let layout = SquareTileLayout::default();
    let neighbors = layout.get_chunk_neighbors(&ChunkCoords::new(10, 20), 1);
    let expected = vec![
        ChunkCoords::new(9, 19),
        ChunkCoords::new(11, 19),
        ChunkCoords::new(11, 21),
        ChunkCoords::new(9, 21),
        ChunkCoords::new(10, 19),
        ChunkCoords::new(11, 20),
        ChunkCoords::new(10, 21),
        ChunkCoords::new(9, 20),
    ];
    assert_eq!(neighbors, expected);
}

#[test]
fn zero_distance_has_no_neighbors() {
    let layout = SquareTileLayout::default();
    assert!(layout.get_chunk_neighbors(&ChunkCoords::new(5, 5), 0).is_empty());
}

#[test]
fn distance_beyond_i32_has_no_neighbors() {
    let layout = SquareTileLayout::default();
    assert!(layout.get_chunk_neighbors(&ChunkCoords::new(0, 0), 2147483648).is_empty());
    assert!(layout.get_chunk_neighbors(&ChunkCoords::new(0, 0), u32::MAX).is_empty());
}

#[test]
fn tile_space_coordinates_should_be_reversible() {
    let layout = SquareTileLayout::default();
    for chunk in sample_chunks() {
        for (tile_x, tile_y) in [(0, 0), (99, 99), (0, 99), (42, 7), (99, 0)] {
            let tile = TileCoords::new(chunk.x, chunk.y, tile_x, tile_y);
            let absolute = layout.tile_to_absolute(&tile);
            let result = layout.absolute_to_tile(&absolute);
            assert_eq!(result, tile);
        }
    }
}

#[test]
fn tile_to_space_scales_by_chunk_and_tile_size() {
    let layout = SquareTileLayout::default();
    let tile = TileCoords::new(2, -3, 5, 7);
    assert_eq!(layout.tile_to_absolute(&tile), TilePosition::new(205, -293));
    assert_eq!(layout.tile_to_space(&tile), (2050, -2930));
    assert_eq!(layout.tile_to_chunk(&tile), ChunkCoords::new(2, -3));
}

#[test]
fn absolute_to_tile_rounds_down_for_negative_positions() {
    let layout = SquareTileLayout::default();
    assert_eq!(layout.absolute_to_tile(&TilePosition::new(-1, 250)), TileCoords::new(-1, 2, 99, 50));
    assert_eq!(layout.absolute_to_tile(&TilePosition::new(-100, -101)), TileCoords::new(-1, -2, 0, 99));
    assert_eq!(
        layout.absolute_to_tile(&TilePosition::new(i32::MIN, i32::MAX)),
        TileCoords::new(-21474837, 21474836, 52, 47)
    );
}

#[test]
fn position_round_trip() {
    let layout = SquareTileLayout::default();
    for (x, y) in [(0, 0), (-1, -1), (12345, -678), (i32::MIN + 48, i32::MAX - 47), (-100, 100)] {
        let pos = TilePosition::new(x, y);
        let tile = layout.absolute_to_tile(&pos);
        assert!(0 <= tile.local_x && tile.local_x < 100);
        assert!(0 <= tile.local_y && tile.local_y < 100);
        assert_eq!(layout.tile_to_absolute(&tile), pos);
    }
}

#[test]
fn chunk_distance_values() {
    let layout = SquareTileLayout::default();
    assert_eq!(layout.get_chunk_distance(&ChunkCoords::new(1, 2), &ChunkCoords::new(4, -2)), 4);
    assert_eq!(layout.get_chunk_distance(&ChunkCoords::new(0, 0), &ChunkCoords::new(0, 0)), 0);
    assert_eq!(layout.get_chunk_distance(&ChunkCoords::new(0, 0), &ChunkCoords::new(1, 1)), 1);
    assert_eq!(layout.get_chunk_distance(&ChunkCoords::new(-5, 7), &ChunkCoords::new(3, 6)), 8);
    assert_eq!(
        layout.get_chunk_distance(&ChunkCoords::new(i32::MAX, 0), &ChunkCoords::new(0, 0)),
        i32::MAX as u32
    );
}

#[test]
fn neighbors_are_within_chebyshev_distance() {
    let layout = SquareTileLayout::default();
    let chunk = ChunkCoords::new(-3, 8);
    for neighbor in layout.get_chunk_neighbors(&chunk, 4).iter() {
        let d = chebyshev(&chunk, neighbor);
        assert!(1 <= d && d <= 4);
        assert_eq!(layout.get_chunk_distance(&chunk, neighbor) as i64, d);
    }
}

#[test]
fn precondition_checks() {
    let layout = SquareTileLayout::default();
    assert!(neighbors_fit_check(&ChunkCoords::new(0, 0), 100));
    assert!(!neighbors_fit_check(&ChunkCoords::new(i32::MAX, 0), 1));
    assert!(!neighbors_fit_check(&ChunkCoords::new(0, i32::MIN), 1));
    assert!(!neighbors_fit_check(&ChunkCoords::new(0, 0), 1 << 30));
    assert!(neighbors_fit_check(&ChunkCoords::new(0, 0), (1 << 30) - 1));
    assert!(chunk_distance_check(&ChunkCoords::new(i32::MAX, 0), &ChunkCoords::new(0, 0)));
    assert!(!chunk_distance_check(&ChunkCoords::new(i32::MAX, 0), &ChunkCoords::new(-1, 0)));
    assert!(!chunk_distance_check(&ChunkCoords::new(0, i32::MIN), &ChunkCoords::new(0, 0)));
    assert!(layout.tile_to_space_fits(&TileCoords::new(2, -3, 5, 7)));
    assert!(layout.tile_to_space_fits(&TileCoords::new(2147483, -2147483, 64, 48)));
    assert!(!layout.tile_to_space_fits(&TileCoords::new(2147483, 0, 65, 0)));
    assert!(!layout.tile_to_space_fits(&TileCoords::new(i32::MAX, 0, 0, 0)));
    assert!(!layout.tile_to_space_fits(&TileCoords::new(0, 0, i32::MAX, 0)));
}
