//! Meshing one chunk.

use crate::density::DensityField;
use crate::exposure::{
    candidates,
    chunk_faces,
    chunk_mesh,
    drawn_before,
    exposed,
    face_index,
    in_chunk,
    lemma_candidate_at_index,
    lemma_chunk_faces_local,
    lemma_chunk_mesh_shows,
    lemma_drawn_step,
    lemma_empty_chunk,
    voxel_count,
    voxel_index,
    voxel_solid,
};
use crate::geometry::Face;
use crate::mesh::{
    lemma_render_nothing,
    lemma_render_push,
    lemma_render_well_formed,
    lemma_render_winds_outwards,
    lemma_view_determines_buffers,
    lemma_well_formed_view,
    render,
    MeshBuffers,
    MeshView,
    VoxelFace,
};
use vstd::prelude::*;

verus! {

/// The edge length of a chunk unless chosen otherwise.
pub const DEFAULT_CHUNK_SIZE: u32 = 16;

/// The largest edge length a chunk may have. Up to this size even a chunk
/// with all six faces of every voxel exposed keeps its vertices within reach
/// of 32-bit indices.
pub const MAX_CHUNK_SIZE: u32 = 563;

/// No vertex count that can arise in a chunk of admissible size overflows a
/// 32-bit index.
proof fn lemma_vertices_fit(size: int, n: int)
    by (nonlinear_arith)
    requires
        0 < size <= MAX_CHUNK_SIZE,
        0 <= n < 6 * voxel_count(size),
    ensures
        4 * n + 3 <= u32::MAX,
{
    assert(size * size <= 563 * 563);
    assert(size * size * size <= 563 * 563 * 563);
}

/// Draws one face of a voxel if it is visible.
fn emit_face(
    mesh: &mut MeshBuffers,
    Ghost(solid): Ghost<Set<(int, int, int)>>,
    Ghost(cx): Ghost<int>,
    Ghost(cz): Ghost<int>,
    size: u32,
    x: u32,
    y: u32,
    z: u32,
    face: Face,
    visible: bool,
)
    requires
        0 < size <= MAX_CHUNK_SIZE,
        x < size,
        y < size,
        z < size,
        visible == exposed(
            solid,
            cx,
            cz,
            size as int,
            VoxelFace { x: x as int, y: y as int, z: z as int, face },
        ),
        old(mesh)@ == render(
            drawn_before(
                solid,
                cx,
                cz,
                size as int,
                face_index(size as int, VoxelFace { x: x as int, y: y as int, z: z as int, face }),
            ),
        ),
    ensures
        final(mesh)@ == render(
            drawn_before(
                solid,
                cx,
                cz,
                size as int,
                face_index(size as int, VoxelFace { x: x as int, y: y as int, z: z as int, face })
                    + 1,
            ),
        ),
{
    let ghost f = VoxelFace { x: x as int, y: y as int, z: z as int, face };
    let ghost before = drawn_before(solid, cx, cz, size as int, face_index(size as int, f));
    proof {
        lemma_drawn_step(solid, cx, cz, size as int, f);
        lemma_candidate_at_index(size as int, f);
        lemma_render_push(before, f);
        lemma_render_well_formed(before);
        lemma_vertices_fit(size as int, face_index(size as int, f));
    }
    if visible {
        mesh.push_face(x as i32, y as i32, z as i32, face);
    }
}

/// Draws the exposed faces of one voxel.
fn mesh_voxel<F: Fn(i64, i64, i64, &noise::Perlin) -> bool>(
    mesh: &mut MeshBuffers,
    field: &DensityField<F>,
    origin: (i32, i32),
    size: u32,
    x: u32,
    y: u32,
    z: u32,
)
    requires
        0 < size <= MAX_CHUNK_SIZE,
        x < size,
        y < size,
        z < size,
        old(mesh)@ == render(
            drawn_before(
                field.solid(),
                origin.0 as int,
                origin.1 as int,
                size as int,
                6 * voxel_index(size as int, x as int, y as int, z as int),
            ),
        ),
    ensures
        final(mesh)@ == render(
            drawn_before(
                field.solid(),
                origin.0 as int,
                origin.1 as int,
                size as int,
                6 * (voxel_index(size as int, x as int, y as int, z as int) + 1),
            ),
        ),
{
    let ghost solid = field.solid();
    let ghost cx = origin.0 as int;
    let ghost cz = origin.1 as int;
    let ghost s = size as int;
    assert(-0x8000_0000 * 563 <= (origin.0 as int) * (size as int) <= 0x8000_0000 * 563)
        by (nonlinear_arith)
        requires
            -0x8000_0000 <= origin.0 as int <= 0x8000_0000,
            0 < size as int <= 563,
    ;
    assert(-0x8000_0000 * 563 <= (origin.1 as int) * (size as int) <= 0x8000_0000 * 563)
        by (nonlinear_arith)
        requires
            -0x8000_0000 <= origin.1 as int <= 0x8000_0000,
            0 < size as int <= 563,
    ;
    let wx: i64 = origin.0 as i64 * size as i64 + x as i64;
    let wy: i64 = y as i64;
    let wz: i64 = origin.1 as i64 * size as i64 + z as i64;
    if !field.is_solid(wx, wy, wz) {
        proof {
            // None of the six faces of an empty voxel is drawn.
            let side = |face: Face| VoxelFace { x: x as int, y: y as int, z: z as int, face };
            lemma_drawn_step(solid, cx, cz, s, side(Face::Top));
            lemma_drawn_step(solid, cx, cz, s, side(Face::Bottom));
            lemma_drawn_step(solid, cx, cz, s, side(Face::Right));
            lemma_drawn_step(solid, cx, cz, s, side(Face::Left));
            lemma_drawn_step(solid, cx, cz, s, side(Face::Front));
            lemma_drawn_step(solid, cx, cz, s, side(Face::Back));
        }
        return ;
    }
    let top = field.is_solid(wx, wy + 1, wz) && y < size - 1;
    let bottom = field.is_solid(wx, wy - 1, wz) && y > 0;
    let right = field.is_solid(wx + 1, wy, wz);
    let left = field.is_solid(wx - 1, wy, wz);
    let front = field.is_solid(wx, wy, wz + 1);
    let back = field.is_solid(wx, wy, wz - 1);
    emit_face(mesh, Ghost(solid), Ghost(cx), Ghost(cz), size, x, y, z, Face::Top, !top);
    emit_face(mesh, Ghost(solid), Ghost(cx), Ghost(cz), size, x, y, z, Face::Bottom, !bottom);
    emit_face(mesh, Ghost(solid), Ghost(cx), Ghost(cz), size, x, y, z, Face::Right, !right);
    emit_face(mesh, Ghost(solid), Ghost(cx), Ghost(cz), size, x, y, z, Face::Left, !left);
    emit_face(mesh, Ghost(solid), Ghost(cx), Ghost(cz), size, x, y, z, Face::Front, !front);
    emit_face(mesh, Ghost(solid), Ghost(cx), Ghost(cz), size, x, y, z, Face::Back, !back);
}

/// Meshes the chunk at `origin` (its x and z chunk coordinates) with edge
/// length `size`: every voxel of the chunk is classified by the field, and
/// each solid voxel contributes a quad for each of its exposed faces.
///
/// Voxels are walked with `x` slowest, then `y`, then `z`; the faces of a
/// voxel come in the order top, bottom, right, left, front, back. Positions
/// are in chunk-local coordinates.
pub fn mesh_chunk<F: Fn(i64, i64, i64, &noise::Perlin) -> bool>(
    origin: (i32, i32),
    size: u32,
    field: &DensityField<F>,
) -> (mesh: MeshBuffers)
    requires
        0 < size <= MAX_CHUNK_SIZE,
    ensures
        mesh@ == chunk_mesh(field.solid(), origin.0 as int, origin.1 as int, size as int),
        mesh.positions@.len() == 4 * chunk_faces(
            field.solid(),
            origin.0 as int,
            origin.1 as int,
            size as int,
        ).len(),
        mesh.normals@.len() == mesh.positions@.len(),
        2 * mesh.indices@.len() == 3 * mesh.positions@.len(),
        mesh.well_formed(),
        mesh@.winds_outwards(),
        forall|f: VoxelFace| #[trigger]
            mesh@.shows(f) <==> in_chunk(size as int, f) && exposed(
                field.solid(),
                origin.0 as int,
                origin.1 as int,
                size as int,
                f,
            ),
        (forall|f: VoxelFace|
            in_chunk(size as int, f) ==> !#[trigger] voxel_solid(
                field.solid(),
                origin.0 as int,
                origin.1 as int,
                size as int,
                f,
            )) ==> mesh@ == MeshView::empty() && mesh.positions@.len() == 0 && mesh.normals@.len()
            == 0 && mesh.indices@.len() == 0,
{
    let ghost solid = field.solid();
    let ghost cx = origin.0 as int;
    let ghost cz = origin.1 as int;
    let ghost s = size as int;
    let mut mesh = MeshBuffers::new();
    proof {
        lemma_render_nothing();
        assert(candidates(s).take(0) =~= Seq::empty());
        assert(drawn_before(solid, cx, cz, s, 0) =~= Seq::empty());
    }
    let mut x: u32 = 0;
    while x < size
        invariant
            0 < size <= MAX_CHUNK_SIZE,
            x <= size,
            solid == field.solid(),
            cx == origin.0 as int,
            cz == origin.1 as int,
            s == size as int,
            mesh@ == render(drawn_before(solid, cx, cz, s, 6 * voxel_index(s, x as int, 0, 0))),
        decreases size - x,
    {
        let mut y: u32 = 0;
        while y < size
            invariant
                0 < size <= MAX_CHUNK_SIZE,
                x < size,
                y <= size,
                solid == field.solid(),
                cx == origin.0 as int,
                cz == origin.1 as int,
                s == size as int,
                mesh@ == render(
                    drawn_before(solid, cx, cz, s, 6 * voxel_index(s, x as int, y as int, 0)),
                ),
            decreases size - y,
        {
            let mut z: u32 = 0;
            while z < size
                invariant
                    0 < size <= MAX_CHUNK_SIZE,
                    x < size,
                    y < size,
                    z <= size,
                    solid == field.solid(),
                    cx == origin.0 as int,
                    cz == origin.1 as int,
                    s == size as int,
                    mesh@ == render(
                        drawn_before(
                            solid,
                            cx,
                            cz,
                            s,
                            6 * voxel_index(s, x as int, y as int, z as int),
                        ),
                    ),
                decreases size - z,
            {
                mesh_voxel(&mut mesh, field, origin, size, x, y, z);
                z += 1;
            }
            assert(voxel_index(s, x as int, y as int, s) == voxel_index(s, x as int, y + 1, 0))
                by (nonlinear_arith);
            y += 1;
        }
        assert(voxel_index(s, x as int, s, 0) == voxel_index(s, x + 1, 0, 0)) by (nonlinear_arith);
        x += 1;
    }
    proof {
        assert(voxel_index(s, s, 0, 0) == voxel_count(s)) by (nonlinear_arith);
        assert(candidates(s).take(6 * voxel_count(s)) =~= candidates(s));
        lemma_render_well_formed(chunk_faces(solid, cx, cz, s));
        lemma_well_formed_view(mesh);
        lemma_render_winds_outwards(chunk_faces(solid, cx, cz, s));
        assert forall|f: VoxelFace| #[trigger]
            mesh@.shows(f) <==> in_chunk(s, f) && exposed(solid, cx, cz, s, f) by {
            lemma_chunk_mesh_shows(solid, cx, cz, s, f);
        }
        if forall|f: VoxelFace| in_chunk(s, f) ==> !#[trigger] voxel_solid(solid, cx, cz, s, f) {
            lemma_empty_chunk(solid, cx, cz, s);
        }
    }
    mesh
}

/// Meshing is repeatable. Two meshes of the same chunk agree entry for entry
/// in all three buffers whenever the fields they were made from agree on the
/// chunk's voxels and on their sideways neighbours, as two fields with the
/// same parameters do, however independently they were set up.
pub proof fn lemma_mesh_chunk_repeatable(
    first: MeshBuffers,
    second: MeshBuffers,
    first_solid: Set<(int, int, int)>,
    second_solid: Set<(int, int, int)>,
    cx: int,
    cz: int,
    size: int,
)
    requires
        0 < size,
        forall|wx: int, wy: int, wz: int|
            cx * size - 1 <= wx <= cx * size + size && 0 <= wy < size && cz * size - 1 <= wz <= cz
                * size + size ==> (#[trigger] first_solid.contains((wx, wy, wz))
                <==> second_solid.contains((wx, wy, wz))),
        first@ == chunk_mesh(first_solid, cx, cz, size),
        second@ == chunk_mesh(second_solid, cx, cz, size),
    ensures
        first.positions@ == second.positions@,
        first.normals@ == second.normals@,
        first.indices@ == second.indices@,
{
    lemma_chunk_faces_local(first_solid, second_solid, cx, cz, size);
    lemma_view_determines_buffers(first, second);
}

} // verus!
