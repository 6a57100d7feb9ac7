use noise::Perlin;
use voxel_terrain::{
    mesh_chunk, DensityField, Placement, TerrainGrid, DEFAULT_CHUNK_SIZE, DEFAULT_RENDER_DISTANCE,
    DEFAULT_SEED, MAX_RENDER_DISTANCE,
};

/// A field of the given shape, whatever the noise.
fn shaped<S: Fn(i64, i64, i64) -> bool>(
    solid: S,
) -> DensityField<impl Fn(i64, i64, i64, &Perlin) -> bool> {
    DensityField::new(DEFAULT_SEED, move |x: i64, y: i64, z: i64, _: &Perlin| solid(x, y, z))
}

#[test]
fn defaults() {
    assert_eq!(DEFAULT_CHUNK_SIZE, 16);
    assert_eq!(DEFAULT_RENDER_DISTANCE, 16);
    assert_eq!(DEFAULT_SEED, 0);
    assert_eq!(MAX_RENDER_DISTANCE as u64, 1 << 31);
}

#[test]
fn grid_remembers_its_chunk_size() {
    assert_eq!(TerrainGrid::new(16).chunk_size(), 16);
    assert_eq!(TerrainGrid::new(1).chunk_size(), 1);
    assert_eq!(TerrainGrid::new(563).chunk_size(), 563);
}

#[test]
fn placement_shifts_the_band_down_by_one_chunk() {
    let grid = TerrainGrid::new(16);
    assert_eq!(grid.placement((0, 0)), Placement { x: 0, y: -16, z: 0 });
    assert_eq!(grid.placement((-3, 2)), Placement { x: -48, y: -16, z: 32 });
    assert_eq!(grid.placement((15, -16)), Placement { x: 240, y: -16, z: -256 });
    let wide = TerrainGrid::new(563);
    assert_eq!(
        wide.placement((i32::MIN, i32::MAX)),
        Placement { x: -2147483648 * 563, y: -563, z: 2147483647 * 563 }
    );
}

#[test]
fn render_distance_zero_generates_nothing() {
    let field = shaped(|_x: i64, _y: i64, _z: i64| true);
    assert!(TerrainGrid::new(4).generate(0, &field).is_empty());
}

#[test]
fn generate_covers_the_square_in_order() {
    let field = shaped(|x: i64, y: i64, z: i64| (x + 2 * y - z).rem_euclid(3) == 0);
    let grid = TerrainGrid::new(3);
    let chunks = grid.generate(2, &field);
    assert_eq!(chunks.len(), 16);
    let mut k = 0;
    for cx in -2..2 {
        for cz in -2..2 {
            let (mesh, placement) = &chunks[k];
            assert_eq!(*placement, Placement { x: cx as i64 * 3, y: -3, z: cz as i64 * 3 });
            let alone = mesh_chunk((cx, cz), 3, &field);
            assert_eq!(mesh.positions, alone.positions);
            assert_eq!(mesh.normals, alone.normals);
            assert_eq!(mesh.indices, alone.indices);
            k += 1;
        }
    }
}

#[test]
fn generate_with_distance_one() {
    // Only world voxel (-1, 0, -1) is solid: it belongs to chunk (-1, -1),
    // the first of the four.
    let field = shaped(|x: i64, y: i64, z: i64| x == -1 && y == 0 && z == -1);
    let chunks = TerrainGrid::new(2).generate(1, &field);
    assert_eq!(chunks.len(), 4);
    assert_eq!(chunks[0].0.positions.len(), 24);
    assert_eq!(chunks[0].1, Placement { x: -2, y: -2, z: -2 });
    assert_eq!(chunks[1].0.positions.len(), 0);
    assert_eq!(chunks[1].1, Placement { x: -2, y: -2, z: 0 });
    assert_eq!(chunks[2].0.positions.len(), 0);
    assert_eq!(chunks[2].1, Placement { x: 0, y: -2, z: -2 });
    assert_eq!(chunks[3].0.positions.len(), 0);
    assert_eq!(chunks[3].1, Placement { x: 0, y: -2, z: 0 });
}

#[test]
fn placed_chunks_tile_the_world_without_gaps() {
    // Adding the placement to local positions gives world positions; the
    // shared wall between two solid neighbours in different chunks is drawn by
    // neither.
    let field = shaped(|x: i64, y: i64, z: i64| (x == -1 || x == 0) && y == 1 && z == 0);
    let grid = TerrainGrid::new(2);
    let chunks = grid.generate(1, &field);
    let mut world_quads = 0;
    for (mesh, placement) in &chunks {
        for (n, p) in mesh.positions.iter().enumerate() {
            let normal = mesh.normals[n];
            let x = p.x as i64 + placement.x;
            // No vertex of a quad facing along x lies on the seam plane x = 0.
            assert!(!(normal.x != 0 && x == 0));
        }
        world_quads += mesh.positions.len() / 4;
    }
    assert_eq!(world_quads, 10);
}
