use noise::{NoiseFn, Perlin};
use voxel_terrain::{mesh_chunk, DensityField, MeshBuffers, TerrainGrid, DEFAULT_SEED};

const SCALE: f64 = 0.1;
const THRESHOLD: f32 = -0.2;

fn is_solid(x: i64, y: i64, z: i64, perlin: &Perlin) -> bool {
    let value = perlin.get([x as f64 * SCALE, y as f64 * SCALE, z as f64 * SCALE]) as f32;
    value >= THRESHOLD
}

/// Meshes a chunk in the most naive way, on floating-point buffers.
fn naive_mesh(
    x_pos: i64,
    z_pos: i64,
    size: i64,
    solid: &dyn Fn(i64, i64, i64) -> bool,
) -> (Vec<[f32; 3]>, Vec<[f32; 3]>, Vec<u32>) {
    let mut vertices: Vec<[f32; 3]> = Vec::new();
    let mut normals: Vec<[f32; 3]> = Vec::new();
    let mut indices: Vec<u32> = Vec::new();
    for x in 0..size {
        for y in 0..size {
            for z in 0..size {
                if !solid(x_pos + x, y, z_pos + z) {
                    continue;
                }
                let hidden = [
                    solid(x_pos + x, y + 1, z_pos + z) && y < size - 1,
                    solid(x_pos + x, y - 1, z_pos + z) && y > 0,
                    solid(x_pos + x + 1, y, z_pos + z),
                    solid(x_pos + x - 1, y, z_pos + z),
                    solid(x_pos + x, y, z_pos + z + 1),
                    solid(x_pos + x, y, z_pos + z - 1),
                ];
                let (a, b, c) = (x as f32, y as f32, z as f32);
                let (a1, b1, c1) = (a + 1.0, b + 1.0, c + 1.0);
                let corners: [[[f32; 3]; 4]; 6] = [
                    [[a, b1, c], [a1, b1, c], [a1, b1, c1], [a, b1, c1]],
                    [[a, b, c], [a1, b, c], [a1, b, c1], [a, b, c1]],
                    [[a1, b, c], [a1, b, c1], [a1, b1, c1], [a1, b1, c]],
                    [[a, b, c], [a, b, c1], [a, b1, c1], [a, b1, c]],
                    [[a, b, c1], [a, b1, c1], [a1, b1, c1], [a1, b, c1]],
                    [[a, b, c], [a, b1, c], [a1, b1, c], [a1, b, c]],
                ];
                let outward: [[f32; 3]; 6] = [
                    [0.0, 1.0, 0.0],
                    [0.0, -1.0, 0.0],
                    [1.0, 0.0, 0.0],
                    [-1.0, 0.0, 0.0],
                    [0.0, 0.0, 1.0],
                    [0.0, 0.0, -1.0],
                ];
                let mut i = vertices.len() as u32;
                for face in 0..6 {
                    if hidden[face] {
                        continue;
                    }
                    vertices.extend_from_slice(&corners[face]);
                    normals.extend_from_slice(&[outward[face]; 4]);
                    i += 4;
                    if face % 2 == 0 {
                        indices.extend_from_slice(&[i - 1, i - 2, i - 3, i - 1, i - 3, i - 4]);
                    } else {
                        indices.extend_from_slice(&[i - 4, i - 3, i - 1, i - 3, i - 2, i - 1]);
                    }
                }
            }
        }
    }
    (vertices, normals, indices)
}

fn as_floats(mesh: &MeshBuffers) -> (Vec<[f32; 3]>, Vec<[f32; 3]>, Vec<u32>) {
    (
        mesh.positions.iter().map(|p| [p.x as f32, p.y as f32, p.z as f32]).collect(),
        mesh.normals.iter().map(|n| [n.x as f32, n.y as f32, n.z as f32]).collect(),
        mesh.indices.clone(),
    )
}

#[test]
fn perlin_field_answers_like_the_noise() {
    for seed in [DEFAULT_SEED, 7, 123_456] {
        let perlin = Perlin::new(seed);
        let field = DensityField::new(seed, is_solid);
        let mut solid = 0;
        let mut empty = 0;
        for x in -20..20 {
            for y in 0..16 {
                for z in -20..20 {
                    let expected = is_solid(x, y, z, &perlin);
                    assert_eq!(field.is_solid(x, y, z), expected);
                    if expected {
                        solid += 1;
                    } else {
                        empty += 1;
                    }
                }
            }
        }
        assert!(solid > 0);
        assert!(empty > 0);
    }
}

#[test]
fn the_seed_selects_the_noise() {
    let first = DensityField::new(0, is_solid);
    let second = DensityField::new(1, is_solid);
    let mut differing = 0;
    for x in -20..20 {
        for y in 0..16 {
            for z in -20..20 {
                if first.is_solid(x, y, z) != second.is_solid(x, y, z) {
                    differing += 1;
                }
            }
        }
    }
    assert!(differing > 0);
}

#[test]
fn a_threshold_above_all_noise_leaves_the_world_empty() {
    // Perlin noise stays within -1 and 1.
    let field = DensityField::new(DEFAULT_SEED, |x: i64, y: i64, z: i64, perlin: &Perlin| {
        perlin.get([x as f64 * SCALE, y as f64 * SCALE, z as f64 * SCALE]) as f32 >= 2.0
    });
    for origin in [(0, 0), (-2, 5), (11, -11)] {
        let mesh = mesh_chunk(origin, 16, &field);
        assert_eq!(mesh.positions.len(), 0);
        assert_eq!(mesh.normals.len(), 0);
        assert_eq!(mesh.indices.len(), 0);
    }
}

#[test]
fn perlin_chunks_match_naive_meshing() {
    let perlin = Perlin::new(DEFAULT_SEED);
    let field = DensityField::new(DEFAULT_SEED, is_solid);
    let mut drawn = 0;
    for (cx, cz) in [(0, 0), (-1, 0), (0, -1), (3, -2), (-16, 15)] {
        let mesh = mesh_chunk((cx, cz), 16, &field);
        let naive =
            naive_mesh(cx as i64 * 16, cz as i64 * 16, 16, &|x, y, z| is_solid(x, y, z, &perlin));
        assert_eq!(as_floats(&mesh), naive);
        drawn += mesh.positions.len();
    }
    assert!(drawn > 0);
}

#[test]
fn perlin_meshing_is_repeatable_across_independent_fields() {
    let first = DensityField::new(DEFAULT_SEED, is_solid);
    let second = DensityField::new(DEFAULT_SEED, is_solid);
    let a = mesh_chunk((2, -5), 16, &first);
    let b = mesh_chunk((2, -5), 16, &second);
    let again = mesh_chunk((2, -5), 16, &first);
    assert!(a.positions.len() > 0);
    assert_eq!(a, b);
    assert_eq!(a, again);
}

#[test]
fn perlin_mesh_is_well_formed_and_winds_outwards() {
    let field = DensityField::new(7, is_solid);
    let mesh = mesh_chunk((1, 1), 16, &field);
    assert!(mesh.positions.len() > 0);
    assert_eq!(mesh.normals.len(), mesh.positions.len());
    assert_eq!(mesh.indices.len() % 3, 0);
    for tri in mesh.indices.chunks(3) {
        let p: Vec<[f64; 3]> = tri
            .iter()
            .map(|&i| {
                assert!((i as usize) < mesh.positions.len());
                let q = mesh.positions[i as usize];
                [q.x as f64, q.y as f64, q.z as f64]
            })
            .collect();
        let u = [p[1][0] - p[0][0], p[1][1] - p[0][1], p[1][2] - p[0][2]];
        let w = [p[2][0] - p[0][0], p[2][1] - p[0][1], p[2][2] - p[0][2]];
        let n = [u[1] * w[2] - u[2] * w[1], u[2] * w[0] - u[0] * w[2], u[0] * w[1] - u[1] * w[0]];
        for &i in tri {
            let s = mesh.normals[i as usize];
            assert!(n[0] * s.x as f64 + n[1] * s.y as f64 + n[2] * s.z as f64 > 0.0);
        }
    }
}

#[test]
fn perlin_seams_are_closed() {
    // Along the seam between chunks (0, 0) and (1, 0): the right face of a
    // voxel in the last column is drawn exactly if the voxel is solid and its
    // neighbour in the next chunk is not, and likewise from the other side.
    let field = DensityField::new(DEFAULT_SEED, is_solid);
    let size = 16;
    let here = mesh_chunk((0, 0), size, &field);
    let there = mesh_chunk((1, 0), size, &field);
    let faces_at_plane = |mesh: &MeshBuffers, plane: i32, normal_x: i32| -> Vec<(i32, i32)> {
        (0..mesh.positions.len() / 4)
            .filter(|&n| mesh.normals[4 * n].x == normal_x && mesh.positions[4 * n].x == plane)
            .map(|n| (mesh.positions[4 * n].y, mesh.positions[4 * n].z))
            .collect()
    };
    let right_faces = faces_at_plane(&here, size as i32, 1);
    let left_faces = faces_at_plane(&there, 0, -1);
    let mut both = 0;
    for y in 0..size as i32 {
        for z in 0..size as i32 {
            let a = field.is_solid(size as i64 - 1, y as i64, z as i64);
            let b = field.is_solid(size as i64, y as i64, z as i64);
            assert_eq!(right_faces.contains(&(y, z)), a && !b);
            assert_eq!(left_faces.contains(&(y, z)), b && !a);
            if a && b {
                both += 1;
            }
        }
    }
    assert!(both > 0);
}

#[test]
fn perlin_grid_pairs_meshes_with_placements() {
    let field = DensityField::new(DEFAULT_SEED, is_solid);
    let chunks = TerrainGrid::new(8).generate(2, &field);
    assert_eq!(chunks.len(), 16);
    for (k, (mesh, placement)) in chunks.iter().enumerate() {
        let cx = k as i32 / 4 - 2;
        let cz = k as i32 % 4 - 2;
        assert_eq!((placement.x, placement.y, placement.z), (cx as i64 * 8, -8, cz as i64 * 8));
        let alone = mesh_chunk((cx, cz), 8, &field);
        assert_eq!(*mesh, alone);
    }
}
