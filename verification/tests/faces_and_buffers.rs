use noise::Perlin;
use voxel_terrain::{DensityField, Face, MeshBuffers, Vec3i, DEFAULT_SEED};

/// A field of the given shape, whatever the noise.
fn shaped<S: Fn(i64, i64, i64) -> bool>(
    solid: S,
) -> DensityField<impl Fn(i64, i64, i64, &Perlin) -> bool> {
    DensityField::new(DEFAULT_SEED, move |x: i64, y: i64, z: i64, _: &Perlin| solid(x, y, z))
}

fn v(x: i32, y: i32, z: i32) -> Vec3i {
    Vec3i { x, y, z }
}

#[test]
fn normals_are_the_axis_directions() {
    assert_eq!(Face::Top.normal(), v(0, 1, 0));
    assert_eq!(Face::Bottom.normal(), v(0, -1, 0));
    assert_eq!(Face::Right.normal(), v(1, 0, 0));
    assert_eq!(Face::Left.normal(), v(-1, 0, 0));
    assert_eq!(Face::Front.normal(), v(0, 0, 1));
    assert_eq!(Face::Back.normal(), v(0, 0, -1));
}

#[test]
fn new_buffers_are_empty() {
    let mesh = MeshBuffers::new();
    assert!(mesh.positions.is_empty());
    assert!(mesh.normals.is_empty());
    assert!(mesh.indices.is_empty());
}

#[test]
fn vec3i_new_sets_components() {
    let p = Vec3i::new(-4, 5, 6);
    assert_eq!((p.x, p.y, p.z), (-4, 5, 6));
}

fn pushed(x: i32, y: i32, z: i32, face: Face) -> MeshBuffers {
    let mut mesh = MeshBuffers::new();
    mesh.push_face(x, y, z, face);
    mesh
}

#[test]
fn push_top_face() {
    let mesh = pushed(2, 3, 4, Face::Top);
    assert_eq!(mesh.positions, vec![v(2, 4, 4), v(3, 4, 4), v(3, 4, 5), v(2, 4, 5)]);
    assert_eq!(mesh.normals, vec![v(0, 1, 0); 4]);
    assert_eq!(mesh.indices, vec![3, 2, 1, 3, 1, 0]);
}

#[test]
fn push_bottom_face() {
    let mesh = pushed(2, 3, 4, Face::Bottom);
    assert_eq!(mesh.positions, vec![v(2, 3, 4), v(3, 3, 4), v(3, 3, 5), v(2, 3, 5)]);
    assert_eq!(mesh.normals, vec![v(0, -1, 0); 4]);
    assert_eq!(mesh.indices, vec![0, 1, 3, 1, 2, 3]);
}

#[test]
fn push_right_face() {
    let mesh = pushed(2, 3, 4, Face::Right);
    assert_eq!(mesh.positions, vec![v(3, 3, 4), v(3, 3, 5), v(3, 4, 5), v(3, 4, 4)]);
    assert_eq!(mesh.normals, vec![v(1, 0, 0); 4]);
    assert_eq!(mesh.indices, vec![3, 2, 1, 3, 1, 0]);
}

#[test]
fn push_left_face() {
    let mesh = pushed(2, 3, 4, Face::Left);
    assert_eq!(mesh.positions, vec![v(2, 3, 4), v(2, 3, 5), v(2, 4, 5), v(2, 4, 4)]);
    assert_eq!(mesh.normals, vec![v(-1, 0, 0); 4]);
    assert_eq!(mesh.indices, vec![0, 1, 3, 1, 2, 3]);
}

#[test]
fn push_front_face() {
    let mesh = pushed(2, 3, 4, Face::Front);
    assert_eq!(mesh.positions, vec![v(2, 3, 5), v(2, 4, 5), v(3, 4, 5), v(3, 3, 5)]);
    assert_eq!(mesh.normals, vec![v(0, 0, 1); 4]);
    assert_eq!(mesh.indices, vec![3, 2, 1, 3, 1, 0]);
}

#[test]
fn push_back_face() {
    let mesh = pushed(2, 3, 4, Face::Back);
    assert_eq!(mesh.positions, vec![v(2, 3, 4), v(2, 4, 4), v(3, 4, 4), v(3, 3, 4)]);
    assert_eq!(mesh.normals, vec![v(0, 0, -1); 4]);
    assert_eq!(mesh.indices, vec![0, 1, 3, 1, 2, 3]);
}

#[test]
fn second_face_indexes_its_own_vertices() {
    let mut mesh = pushed(0, 0, 0, Face::Top);
    mesh.push_face(-7, 0, 9, Face::Left);
    assert_eq!(mesh.positions.len(), 8);
    assert_eq!(mesh.normals.len(), 8);
    assert_eq!(mesh.indices, vec![3, 2, 1, 3, 1, 0, 4, 5, 7, 5, 6, 7]);
    assert_eq!(mesh.positions[4..], [v(-7, 0, 9), v(-7, 0, 10), v(-7, 1, 10), v(-7, 1, 9)]);
    assert_eq!(mesh.normals[4..], [v(-1, 0, 0); 4]);
}

#[test]
fn push_face_keeps_what_was_there() {
    let mut mesh = pushed(1, 1, 1, Face::Front);
    let before = (mesh.positions.clone(), mesh.normals.clone(), mesh.indices.clone());
    mesh.push_face(1, 1, 1, Face::Back);
    assert_eq!(mesh.positions[..4], before.0[..]);
    assert_eq!(mesh.normals[..4], before.1[..]);
    assert_eq!(mesh.indices[..6], before.2[..]);
}

#[test]
fn field_answers_as_its_sampler() {
    let field = shaped(|x: i64, y: i64, z: i64| x + y + z >= 10);
    assert!(field.is_solid(10, 0, 0));
    assert!(field.is_solid(3, 3, 4));
    assert!(!field.is_solid(3, 3, 3));
    assert!(!field.is_solid(i64::MIN, 0, 0));
    assert!(field.is_solid(i64::MAX, 0, 0));
    // Asking again changes nothing.
    assert!(field.is_solid(10, 0, 0));
    assert!(!field.is_solid(3, 3, 3));
}
