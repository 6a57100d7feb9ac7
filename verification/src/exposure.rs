//! Which faces of a chunk are drawn, and in what order.
//!
//! A chunk at origin `(cx, cz)` with edge length `size` holds the voxels
//! whose local coordinates lie in `[0, size)` on each axis; the voxel at
//! local `(x, y, z)` sits at world `(cx * size + x, y, cz * size + z)`. There
//! is a single vertical band of chunks, so local and world heights coincide.

use crate::geometry::{face_at, face_rank, lemma_face_order, normal_of, Face};
use crate::mesh::{
    lemma_render_nothing,
    lemma_render_quad,
    lemma_render_shows,
    render,
    MeshView,
    VoxelFace,
};
use vstd::arithmetic::div_mod::{
    lemma_fundamental_div_mod,
    lemma_fundamental_div_mod_converse,
    lemma_mod_pos_bound,
};
use vstd::prelude::*;

verus! {

/// Whether the face belongs to a voxel of the chunk.
pub open spec fn in_chunk(size: int, f: VoxelFace) -> bool {
    0 <= f.x < size && 0 <= f.y < size && 0 <= f.z < size
}

/// Whether the voxel that the face belongs to is solid.
pub open spec fn voxel_solid(
    solid: Set<(int, int, int)>,
    cx: int,
    cz: int,
    size: int,
    f: VoxelFace,
) -> bool {
    solid.contains((cx * size + f.x, f.y, cz * size + f.z))
}

/// Whether the voxel on the other side of the face is solid. The neighbour
/// is looked up in the field at its world position, inside the chunk or not.
pub open spec fn neighbour_solid(
    solid: Set<(int, int, int)>,
    cx: int,
    cz: int,
    size: int,
    f: VoxelFace,
) -> bool {
    let n = normal_of(f.face);
    solid.contains((cx * size + f.x + n.x, f.y + n.y, cz * size + f.z + n.z))
}

/// Whether the face is hidden. A sideways face is hidden by any solid
/// neighbour. An upward or downward face is hidden only by a solid neighbour
/// within the chunk's own layers, so the top of the topmost layer and the
/// bottom of the bottommost are never hidden.
pub open spec fn hidden(
    solid: Set<(int, int, int)>,
    cx: int,
    cz: int,
    size: int,
    f: VoxelFace,
) -> bool {
    let n = normal_of(f.face);
    neighbour_solid(solid, cx, cz, size, f) && (n.y == 0 || 0 <= f.y + n.y < size)
}

/// Whether the face is drawn: its voxel is solid and the face is not hidden.
pub open spec fn exposed(
    solid: Set<(int, int, int)>,
    cx: int,
    cz: int,
    size: int,
    f: VoxelFace,
) -> bool {
    voxel_solid(solid, cx, cz, size, f) && !hidden(solid, cx, cz, size, f)
}

/// The number of voxels in a chunk.
pub open spec fn voxel_count(size: int) -> int {
    size * size * size
}

/// The place of a voxel in the order in which a chunk is walked: `x` slowest,
/// then `y`, then `z`.
pub open spec fn voxel_index(size: int, x: int, y: int, z: int) -> int {
    (x * size + y) * size + z
}

/// The place of a face among all faces of the chunk: voxels in walking order,
/// the six faces of a voxel in emission order.
pub open spec fn face_index(size: int, f: VoxelFace) -> int {
    6 * voxel_index(size, f.x, f.y, f.z) + face_rank(f.face)
}

/// The face at place `i`; inverse of [`face_index`].
pub open spec fn candidate(size: int, i: int) -> VoxelFace {
    let v = i / 6;
    VoxelFace { x: v / size / size, y: (v / size) % size, z: v % size, face: face_at(i % 6) }
}

/// Every face of every voxel of the chunk, in order.
pub open spec fn candidates(size: int) -> Seq<VoxelFace> {
    Seq::new((6 * voxel_count(size)) as nat, |i: int| candidate(size, i))
}

/// The faces that meshing the chunk draws: all faces in order, keeping the
/// exposed ones.
pub open spec fn chunk_faces(
    solid: Set<(int, int, int)>,
    cx: int,
    cz: int,
    size: int,
) -> Seq<VoxelFace> {
    candidates(size).filter(|f: VoxelFace| exposed(solid, cx, cz, size, f))
}

/// The faces drawn among the first `n` candidates.
pub open spec fn drawn_before(
    solid: Set<(int, int, int)>,
    cx: int,
    cz: int,
    size: int,
    n: int,
) -> Seq<VoxelFace> {
    candidates(size).take(n).filter(|f: VoxelFace| exposed(solid, cx, cz, size, f))
}

/// The mesh of the chunk.
pub open spec fn chunk_mesh(solid: Set<(int, int, int)>, cx: int, cz: int, size: int) -> MeshView {
    render(chunk_faces(solid, cx, cz, size))
}

/// Walking order counts the voxels of a chunk from zero without gaps.
pub proof fn lemma_voxel_index_range(size: int, x: int, y: int, z: int)
    by (nonlinear_arith)
    requires
        0 <= x < size,
        0 <= y < size,
        0 <= z < size,
    ensures
        0 <= voxel_index(size, x, y, z) < voxel_count(size),
{
    assert(x * size + y <= (size - 1) * size + (size - 1));
    assert((x * size + y) * size <= (size * size - 1) * size);
}

/// A face of the chunk sits at its own index among the candidates.
pub proof fn lemma_candidate_at_index(size: int, f: VoxelFace)
    requires
        in_chunk(size, f),
    ensures
        0 <= face_index(size, f) < candidates(size).len(),
        candidates(size)[face_index(size, f)] == f,
{
    let row = f.x * size + f.y;
    let v = voxel_index(size, f.x, f.y, f.z);
    lemma_voxel_index_range(size, f.x, f.y, f.z);
    lemma_fundamental_div_mod_converse(v, size, row, f.z);
    lemma_fundamental_div_mod_converse(row, size, f.x, f.y);
    lemma_face_order(f.face);
    assert(face_index(size, f) / 6 == v && face_index(size, f) % 6 == face_rank(f.face));
}

/// Every candidate is a face of the chunk, and sits at its own index.
pub proof fn lemma_candidate_in_chunk(size: int, i: int)
    requires
        0 < size,
        0 <= i < candidates(size).len(),
    ensures
        in_chunk(size, candidate(size, i)),
        face_index(size, candidate(size, i)) == i,
{
    let v = i / 6;
    assert(0 < voxel_count(size)) by (nonlinear_arith)
        requires
            0 < size,
    {
    }
    let row = v / size;
    lemma_fundamental_div_mod(v, size);
    lemma_mod_pos_bound(v, size);
    lemma_fundamental_div_mod(row, size);
    lemma_mod_pos_bound(row, size);
    let x = row / size;
    assert(0 <= row < size * size) by (nonlinear_arith)
        requires
            v == size * row + v % size,
            0 <= v % size < size,
            0 <= v < size * size * size,
            size > 0,
    {
    }
    assert(0 <= x < size) by (nonlinear_arith)
        requires
            row == size * x + row % size,
            0 <= row % size < size,
            0 <= row < size * size,
            size > 0,
    {
    }
    assert(voxel_index(size, x, row % size, v % size) == v) by (nonlinear_arith)
        requires
            row == size * x + row % size,
            v == size * row + v % size,
    {
    }
}

/// A face is drawn exactly if it belongs to a voxel of the chunk and is
/// exposed.
pub proof fn lemma_chunk_faces_membership(
    solid: Set<(int, int, int)>,
    cx: int,
    cz: int,
    size: int,
    f: VoxelFace,
)
    requires
        0 < size,
    ensures
        chunk_faces(solid, cx, cz, size).contains(f) <==> in_chunk(size, f) && exposed(
            solid,
            cx,
            cz,
            size,
            f,
        ),
{
    let all = candidates(size);
    let keep = |g: VoxelFace| exposed(solid, cx, cz, size, g);
    if all.filter(keep).contains(f) {
        all.lemma_filter_contains_rev(keep, f);
        let i = choose|i: int| 0 <= i < all.len() && all[i] == f;
        lemma_candidate_in_chunk(size, i);
    }
    if in_chunk(size, f) && exposed(solid, cx, cz, size, f) {
        lemma_candidate_at_index(size, f);
    }
}

/// Looking at one more candidate adds it if it is exposed and nothing
/// otherwise.
pub proof fn lemma_drawn_step(
    solid: Set<(int, int, int)>,
    cx: int,
    cz: int,
    size: int,
    f: VoxelFace,
)
    requires
        in_chunk(size, f),
    ensures
        drawn_before(solid, cx, cz, size, face_index(size, f) + 1) == if exposed(
            solid,
            cx,
            cz,
            size,
            f,
        ) {
            drawn_before(solid, cx, cz, size, face_index(size, f)).push(f)
        } else {
            drawn_before(solid, cx, cz, size, face_index(size, f))
        },
        drawn_before(solid, cx, cz, size, face_index(size, f)).len() <= face_index(size, f),
{
    let all = candidates(size);
    let n = face_index(size, f);
    let keep = |g: VoxelFace| exposed(solid, cx, cz, size, g);
    lemma_candidate_at_index(size, f);
    assert(all.take(n + 1) =~= all.take(n).push(f));
    all.take(n).lemma_filter_push(f, keep);
}

/// The faces drawn among the first `n` candidates come in candidate order,
/// each before the `n`-th.
pub proof fn lemma_drawn_before_ordered(
    solid: Set<(int, int, int)>,
    cx: int,
    cz: int,
    size: int,
    n: int,
)
    requires
        0 < size,
        0 <= n <= candidates(size).len(),
    ensures
        forall|i: int|
            0 <= i < drawn_before(solid, cx, cz, size, n).len() ==> 0 <= face_index(
                size,
                #[trigger] drawn_before(solid, cx, cz, size, n)[i],
            ) < n,
        forall|i: int, j: int|
            0 <= i < j < drawn_before(solid, cx, cz, size, n).len() ==> face_index(
                size,
                #[trigger] drawn_before(solid, cx, cz, size, n)[i],
            ) < face_index(size, #[trigger] drawn_before(solid, cx, cz, size, n)[j]),
    decreases n,
{
    if n > 0 {
        lemma_candidate_in_chunk(size, n - 1);
        lemma_drawn_step(solid, cx, cz, size, candidate(size, n - 1));
        lemma_drawn_before_ordered(solid, cx, cz, size, n - 1);
    }
}

/// The drawn faces come in walking order and none comes twice.
pub proof fn lemma_chunk_faces_ordered(
    solid: Set<(int, int, int)>,
    cx: int,
    cz: int,
    size: int,
    i: int,
    j: int,
)
    requires
        0 < size,
        0 <= i < j < chunk_faces(solid, cx, cz, size).len(),
    ensures
        face_index(size, chunk_faces(solid, cx, cz, size)[i]) < face_index(
            size,
            chunk_faces(solid, cx, cz, size)[j],
        ),
        chunk_faces(solid, cx, cz, size)[i] != chunk_faces(solid, cx, cz, size)[j],
{
    let all = candidates(size);
    assert(0 < voxel_count(size)) by (nonlinear_arith)
        requires
            0 < size,
    {
    }
    assert(all.take(all.len() as int) =~= all);
    lemma_drawn_before_ordered(solid, cx, cz, size, all.len() as int);
    let drawn = drawn_before(solid, cx, cz, size, all.len() as int);
    assert(drawn == chunk_faces(solid, cx, cz, size));
    assert(face_index(size, drawn[i]) < face_index(size, drawn[j]));
}

/// The mesh of a chunk draws a face exactly if the face belongs to a voxel of
/// the chunk and is exposed.
pub proof fn lemma_chunk_mesh_shows(
    solid: Set<(int, int, int)>,
    cx: int,
    cz: int,
    size: int,
    f: VoxelFace,
)
    requires
        0 < size,
    ensures
        chunk_mesh(solid, cx, cz, size).shows(f) <==> in_chunk(size, f) && exposed(
            solid,
            cx,
            cz,
            size,
            f,
        ),
{
    lemma_render_shows(chunk_faces(solid, cx, cz, size), f);
    lemma_chunk_faces_membership(solid, cx, cz, size, f);
}

/// The face opposite to a face.
pub open spec fn opposite(face: Face) -> Face {
    match face {
        Face::Top => Face::Bottom,
        Face::Bottom => Face::Top,
        Face::Right => Face::Left,
        Face::Left => Face::Right,
        Face::Front => Face::Back,
        Face::Back => Face::Front,
    }
}

/// The same square seen from the voxel on its other side.
pub open spec fn across(f: VoxelFace) -> VoxelFace {
    let n = normal_of(f.face);
    VoxelFace { x: f.x + n.x, y: f.y + n.y, z: f.z + n.z, face: opposite(f.face) }
}

/// No face between two solid voxels is drawn, from either side. This holds
/// of sideways neighbours wherever they lie, in this chunk or in an adjoining
/// one, and of a voxel and the one above it if both lie in the chunk's
/// layers. (The top of the topmost layer and the bottom of the bottommost are
/// drawn whatever lies beyond them.)
pub proof fn lemma_no_interior_faces(
    solid: Set<(int, int, int)>,
    cx: int,
    cz: int,
    size: int,
    f: VoxelFace,
)
    requires
        0 < size,
        voxel_solid(solid, cx, cz, size, f),
        neighbour_solid(solid, cx, cz, size, f),
        normal_of(f.face).y == 0 || (0 <= f.y < size && 0 <= f.y + normal_of(f.face).y < size),
    ensures
        !chunk_mesh(solid, cx, cz, size).shows(f),
        !chunk_mesh(solid, cx, cz, size).shows(across(f)),
{
    lemma_chunk_mesh_shows(solid, cx, cz, size, f);
    lemma_chunk_mesh_shows(solid, cx, cz, size, across(f));
}

/// The shell is closed: every square between a solid voxel of the chunk and
/// an empty neighbour is drawn, from the solid side and from that side only.
pub proof fn lemma_shell_is_closed(
    solid: Set<(int, int, int)>,
    cx: int,
    cz: int,
    size: int,
    f: VoxelFace,
)
    requires
        0 < size,
        in_chunk(size, f),
        voxel_solid(solid, cx, cz, size, f),
        !neighbour_solid(solid, cx, cz, size, f),
    ensures
        chunk_mesh(solid, cx, cz, size).shows(f),
        !chunk_mesh(solid, cx, cz, size).shows(across(f)),
{
    lemma_chunk_mesh_shows(solid, cx, cz, size, f);
    lemma_chunk_mesh_shows(solid, cx, cz, size, across(f));
}

/// No face is drawn twice: a mesh holds the quad of a face at one place at
/// most.
pub proof fn lemma_drawn_once(
    solid: Set<(int, int, int)>,
    cx: int,
    cz: int,
    size: int,
    f: VoxelFace,
    n: int,
    m: int,
)
    requires
        0 < size,
        chunk_mesh(solid, cx, cz, size).quad_at(n, f),
        chunk_mesh(solid, cx, cz, size).quad_at(m, f),
    ensures
        n == m,
{
    let faces = chunk_faces(solid, cx, cz, size);
    lemma_render_quad(faces, n, f);
    lemma_render_quad(faces, m, f);
    if n < m {
        lemma_chunk_faces_ordered(solid, cx, cz, size, n, m);
    }
    if m < n {
        lemma_chunk_faces_ordered(solid, cx, cz, size, m, n);
    }
}

/// Chunks that adjoin along x agree about their seam. Of the two faces that
/// coincide there, the right face of a voxel in the last column of one chunk
/// and the left face of its neighbour in the first column of the next, the
/// one that belongs to a solid voxel facing an empty one is drawn, by the
/// chunk that holds the solid voxel; where both voxels are solid, or both
/// empty, neither chunk draws anything.
pub proof fn lemma_seam_along_x(
    solid: Set<(int, int, int)>,
    cx: int,
    cz: int,
    size: int,
    y: int,
    z: int,
)
    requires
        0 < size,
        0 <= y < size,
        0 <= z < size,
    ensures
        ({
            let here = VoxelFace { x: size - 1, y, z, face: Face::Right };
            let there = VoxelFace { x: 0, y, z, face: Face::Left };
            let here_solid = voxel_solid(solid, cx, cz, size, here);
            let there_solid = voxel_solid(solid, cx + 1, cz, size, there);
            &&& chunk_mesh(solid, cx, cz, size).shows(here) <==> here_solid && !there_solid
            &&& chunk_mesh(solid, cx + 1, cz, size).shows(there) <==> there_solid && !here_solid
        }),
{
    let here = VoxelFace { x: size - 1, y, z, face: Face::Right };
    let there = VoxelFace { x: 0, y, z, face: Face::Left };
    lemma_chunk_mesh_shows(solid, cx, cz, size, here);
    lemma_chunk_mesh_shows(solid, cx + 1, cz, size, there);
    assert((cx + 1) * size == cx * size + size) by (nonlinear_arith);
}

/// Chunks that adjoin along z agree about their seam, in the same way as
/// along x: here the front face of a voxel in the last row of one chunk
/// coincides with the back face of its neighbour in the first row of the
/// next.
pub proof fn lemma_seam_along_z(
    solid: Set<(int, int, int)>,
    cx: int,
    cz: int,
    size: int,
    x: int,
    y: int,
)
    requires
        0 < size,
        0 <= x < size,
        0 <= y < size,
    ensures
        ({
            let here = VoxelFace { x, y, z: size - 1, face: Face::Front };
            let there = VoxelFace { x, y, z: 0, face: Face::Back };
            let here_solid = voxel_solid(solid, cx, cz, size, here);
            let there_solid = voxel_solid(solid, cx, cz + 1, size, there);
            &&& chunk_mesh(solid, cx, cz, size).shows(here) <==> here_solid && !there_solid
            &&& chunk_mesh(solid, cx, cz + 1, size).shows(there) <==> there_solid && !here_solid
        }),
{
    let here = VoxelFace { x, y, z: size - 1, face: Face::Front };
    let there = VoxelFace { x, y, z: 0, face: Face::Back };
    lemma_chunk_mesh_shows(solid, cx, cz, size, here);
    lemma_chunk_mesh_shows(solid, cx, cz + 1, size, there);
    assert((cz + 1) * size == cz * size + size) by (nonlinear_arith);
}

/// A chunk without a solid voxel has no faces and an empty mesh.
pub proof fn lemma_empty_chunk(solid: Set<(int, int, int)>, cx: int, cz: int, size: int)
    requires
        0 < size,
        forall|f: VoxelFace| in_chunk(size, f) ==> !#[trigger] voxel_solid(solid, cx, cz, size, f),
    ensures
        chunk_faces(solid, cx, cz, size) == Seq::<VoxelFace>::empty(),
        chunk_mesh(solid, cx, cz, size) == MeshView::empty(),
{
    let faces = chunk_faces(solid, cx, cz, size);
    if faces.len() > 0 {
        // The first face, if there were one, would belong to a solid voxel.
        lemma_chunk_faces_membership(solid, cx, cz, size, faces[0]);
    }
    lemma_render_nothing();
}

/// Filtering by two predicates that agree on every element gives the same
/// result.
proof fn lemma_filter_agree<A>(s: Seq<A>, p: spec_fn(A) -> bool, q: spec_fn(A) -> bool)
    requires
        forall|i: int| 0 <= i < s.len() ==> p(#[trigger] s[i]) == q(s[i]),
    ensures
        s.filter(p) == s.filter(q),
    decreases s.len(),
{
    reveal(Seq::filter);
    if s.len() > 0 {
        let rest = s.drop_last();
        assert forall|i: int| 0 <= i < rest.len() implies p(#[trigger] rest[i]) == q(rest[i]) by {
            assert(rest[i] == s[i]);
        }
        lemma_filter_agree(rest, p, q);
    }
}

/// The faces of a chunk depend on the field only at the chunk's own voxels
/// and at their sideways neighbours: two fields that agree there give the
/// same faces and the same mesh.
pub proof fn lemma_chunk_faces_local(
    first: Set<(int, int, int)>,
    second: Set<(int, int, int)>,
    cx: int,
    cz: int,
    size: int,
)
    requires
        0 < size,
        forall|wx: int, wy: int, wz: int|
            cx * size - 1 <= wx <= cx * size + size && 0 <= wy < size && cz * size - 1 <= wz <= cz
                * size + size ==> (#[trigger] first.contains((wx, wy, wz)) <==> second.contains(
                (wx, wy, wz),
            )),
    ensures
        chunk_faces(first, cx, cz, size) == chunk_faces(second, cx, cz, size),
        chunk_mesh(first, cx, cz, size) == chunk_mesh(second, cx, cz, size),
{
    let all = candidates(size);
    let p = |f: VoxelFace| exposed(first, cx, cz, size, f);
    let q = |f: VoxelFace| exposed(second, cx, cz, size, f);
    assert forall|i: int| 0 <= i < all.len() implies p(#[trigger] all[i]) == q(all[i]) by {
        lemma_candidate_in_chunk(size, i);
        let f = all[i];
        let n = normal_of(f.face);
        assert(first.contains((cx * size + f.x, f.y, cz * size + f.z)) <==> second.contains(
            (cx * size + f.x, f.y, cz * size + f.z),
        ));
        if n.y == 0 || 0 <= f.y + n.y < size {
            assert(first.contains((cx * size + f.x + n.x, f.y + n.y, cz * size + f.z + n.z))
                <==> second.contains((cx * size + f.x + n.x, f.y + n.y, cz * size + f.z + n.z)));
        }
    }
    lemma_filter_agree(all, p, q);
}

} // verus!
