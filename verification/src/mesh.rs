//! Mesh buffers and the geometry that a sequence of voxel faces stands for.

use crate::geometry::{
    corner_of,
    lemma_face_winding,
    lemma_unit_normal,
    normal_of,
    winding_of,
    Face,
    Point3,
    Vec3i,
};
use vstd::prelude::*;

verus! {

/// One face of one voxel: the voxel's minimum corner and the side.
pub struct VoxelFace {
    pub x: int,
    pub y: int,
    pub z: int,
    pub face: Face,
}

impl VoxelFace {
    /// The minimum corner of the voxel.
    pub open spec fn origin(self) -> Point3 {
        Point3 { x: self.x, y: self.y, z: self.z }
    }

    /// Corner `k` (0 to 3) of the face.
    pub open spec fn corner(self, k: int) -> Point3 {
        self.origin().plus(corner_of(self.face, k))
    }
}

/// What a mesh is, mathematically: vertex positions, one normal per vertex,
/// and vertex indices read three at a time as triangles.
#[verifier::ext_equal]
pub struct MeshView {
    pub positions: Seq<Point3>,
    pub normals: Seq<Point3>,
    pub indices: Seq<int>,
}

impl MeshView {
    /// The mesh without any geometry.
    pub open spec fn empty() -> MeshView {
        MeshView { positions: Seq::empty(), normals: Seq::empty(), indices: Seq::empty() }
    }

    /// Every vertex has a normal, the indices form whole triangles, and each
    /// index names a vertex.
    pub open spec fn well_formed(self) -> bool {
        &&& self.normals.len() == self.positions.len()
        &&& self.indices.len() % 3 == 0
        &&& forall|i: int|
            0 <= i < self.indices.len() ==> 0 <= #[trigger] self.indices[i] < self.positions.len()
    }

    /// The number of triangles.
    pub open spec fn triangles(self) -> int {
        self.indices.len() as int / 3
    }

    /// Vertex `k` (0 to 2) of triangle `t`, as an index into the positions.
    pub open spec fn triangle_vertex(self, t: int, k: int) -> int {
        self.indices[3 * t + k]
    }

    /// The cross product of the edges that leave the first vertex of triangle
    /// `t`: a vector along the side the triangle is seen counter-clockwise
    /// from.
    pub open spec fn triangle_normal(self, t: int) -> Point3 {
        let a = self.positions[self.triangle_vertex(t, 0)];
        let b = self.positions[self.triangle_vertex(t, 1)];
        let c = self.positions[self.triangle_vertex(t, 2)];
        b.minus(a).cross(c.minus(a))
    }

    /// Whether every triangle faces outwards: the cross product of its edges,
    /// taken in index order, has a positive dot product with the normal stored
    /// at each of its three vertices.
    pub open spec fn winds_outwards(self) -> bool {
        forall|t: int, k: int|
            0 <= t < self.triangles() && 0 <= k < 3 ==> self.triangle_normal(t).dot(
                self.normals[#[trigger] self.triangle_vertex(t, k)],
            ) > 0
    }

    /// Whether the `n`-th group of four vertices is the quad of face `f`: its
    /// four corners in order, each with the face's normal.
    pub open spec fn quad_at(self, n: int, f: VoxelFace) -> bool {
        &&& 0 <= n
        &&& 4 * n + 4 <= self.positions.len()
        &&& 4 * n + 4 <= self.normals.len()
        &&& self.positions[4 * n] == f.corner(0)
        &&& self.positions[4 * n + 1] == f.corner(1)
        &&& self.positions[4 * n + 2] == f.corner(2)
        &&& self.positions[4 * n + 3] == f.corner(3)
        &&& self.normals[4 * n] == normal_of(f.face)
        &&& self.normals[4 * n + 1] == normal_of(f.face)
        &&& self.normals[4 * n + 2] == normal_of(f.face)
        &&& self.normals[4 * n + 3] == normal_of(f.face)
    }

    /// Whether the mesh draws face `f`.
    pub open spec fn shows(self, f: VoxelFace) -> bool {
        exists|n: int| #[trigger] self.quad_at(n, f)
    }

    /// This mesh followed by one more quad: four fresh vertices carrying the
    /// face's normal, and six indices that refer to those four only.
    pub open spec fn with_face(self, f: VoxelFace) -> MeshView {
        MeshView {
            positions: self.positions + Seq::new(4, |k: int| f.corner(k)),
            normals: self.normals + Seq::new(4, |k: int| normal_of(f.face)),
            indices: self.indices + Seq::new(
                6,
                |k: int| self.positions.len() + winding_of(f.face, k),
            ),
        }
    }
}

/// The mesh that draws the given faces, in order: face `n` owns positions and
/// normals `4n` to `4n + 3` and indices `6n` to `6n + 5`.
pub open spec fn render(faces: Seq<VoxelFace>) -> MeshView {
    MeshView {
        positions: Seq::new(4 * faces.len(), |i: int| faces[i / 4].corner(i % 4)),
        normals: Seq::new(4 * faces.len(), |i: int| normal_of(faces[i / 4].face)),
        indices: Seq::new(
            6 * faces.len(),
            |i: int| 4 * (i / 6) + winding_of(faces[i / 6].face, i % 6),
        ),
    }
}

/// Position, normal and index buffers of a triangle mesh.
///
/// The three buffers are plain vectors, ready to be handed to a renderer.
/// Quads never share vertices, not even where they meet: every face brings
/// its own four, so that shading stays flat.
#[derive(Debug, PartialEq, Eq)]
pub struct MeshBuffers {
    pub positions: Vec<Vec3i>,
    pub normals: Vec<Vec3i>,
    pub indices: Vec<u32>,
}

impl View for MeshBuffers {
    type V = MeshView;

    open spec fn view(&self) -> MeshView {
        MeshView {
            positions: self.positions@.map_values(|v: Vec3i| v@),
            normals: self.normals@.map_values(|v: Vec3i| v@),
            indices: self.indices@.map_values(|i: u32| i as int),
        }
    }
}

impl MeshBuffers {
    /// Every vertex has a normal, the indices form whole triangles, and each
    /// index names a vertex.
    pub open spec fn well_formed(&self) -> bool {
        &&& self.normals@.len() == self.positions@.len()
        &&& self.indices@.len() % 3 == 0
        &&& forall|i: int|
            0 <= i < self.indices@.len() ==> (#[trigger] self.indices@[i]) < self.positions@.len()
    }

    /// Empty buffers.
    pub fn new() -> (mesh: MeshBuffers)
        ensures
            mesh@ == MeshView::empty(),
            mesh.positions@.len() == 0,
            mesh.normals@.len() == 0,
            mesh.indices@.len() == 0,
    {
        MeshBuffers { positions: Vec::new(), normals: Vec::new(), indices: Vec::new() }
    }

    /// Appends the quad for one face of the voxel whose minimum corner is
    /// `(x, y, z)`: four positions, four copies of the normal, and the six
    /// indices of its two triangles.
    pub fn push_face(&mut self, x: i32, y: i32, z: i32, face: Face)
        requires
            x < i32::MAX,
            y < i32::MAX,
            z < i32::MAX,
            old(self)@.positions.len() + 3 <= u32::MAX,
        ensures
            final(self)@ == old(self)@.with_face(
                VoxelFace { x: x as int, y: y as int, z: z as int, face },
            ),
            final(self).positions@.len() == old(self).positions@.len() + 4,
            final(self).normals@.len() == old(self).normals@.len() + 4,
            final(self).indices@.len() == old(self).indices@.len() + 6,
    {
        let base = self.positions.len() as u32;
        match face {
            Face::Top => {
                self.positions.push(Vec3i::new(x, y + 1, z));
                self.positions.push(Vec3i::new(x + 1, y + 1, z));
                self.positions.push(Vec3i::new(x + 1, y + 1, z + 1));
                self.positions.push(Vec3i::new(x, y + 1, z + 1));
            },
            Face::Bottom => {
                self.positions.push(Vec3i::new(x, y, z));
                self.positions.push(Vec3i::new(x + 1, y, z));
                self.positions.push(Vec3i::new(x + 1, y, z + 1));
                self.positions.push(Vec3i::new(x, y, z + 1));
            },
            Face::Right => {
                self.positions.push(Vec3i::new(x + 1, y, z));
                self.positions.push(Vec3i::new(x + 1, y, z + 1));
                self.positions.push(Vec3i::new(x + 1, y + 1, z + 1));
                self.positions.push(Vec3i::new(x + 1, y + 1, z));
            },
            Face::Left => {
                self.positions.push(Vec3i::new(x, y, z));
                self.positions.push(Vec3i::new(x, y, z + 1));
                self.positions.push(Vec3i::new(x, y + 1, z + 1));
                self.positions.push(Vec3i::new(x, y + 1, z));
            },
            Face::Front => {
                self.positions.push(Vec3i::new(x, y, z + 1));
                self.positions.push(Vec3i::new(x, y + 1, z + 1));
                self.positions.push(Vec3i::new(x + 1, y + 1, z + 1));
                self.positions.push(Vec3i::new(x + 1, y, z + 1));
            },
            Face::Back => {
                self.positions.push(Vec3i::new(x, y, z));
                self.positions.push(Vec3i::new(x, y + 1, z));
                self.positions.push(Vec3i::new(x + 1, y + 1, z));
                self.positions.push(Vec3i::new(x + 1, y, z));
            },
        }
        let normal = face.normal();
        self.normals.push(normal);
        self.normals.push(normal);
        self.normals.push(normal);
        self.normals.push(normal);
        match face {
            Face::Top | Face::Right | Face::Front => {
                self.indices.push(base + 3);
                self.indices.push(base + 2);
                self.indices.push(base + 1);
                self.indices.push(base + 3);
                self.indices.push(base + 1);
                self.indices.push(base);
            },
            Face::Bottom | Face::Left | Face::Back => {
                self.indices.push(base);
                self.indices.push(base + 1);
                self.indices.push(base + 3);
                self.indices.push(base + 1);
                self.indices.push(base + 2);
                self.indices.push(base + 3);
            },
        }
    }
}

/// Drawing no faces gives the empty mesh.
pub proof fn lemma_render_nothing()
    ensures
        render(Seq::empty()) == MeshView::empty(),
{
}

/// Drawing one more face appends its quad and leaves the rest alone.
pub proof fn lemma_render_push(faces: Seq<VoxelFace>, f: VoxelFace)
    ensures
        render(faces.push(f)) == render(faces).with_face(f),
{
}

/// A rendered mesh has as many normals as positions, whole triangles only,
/// and no index that points outside the positions. Moreover every face keeps
/// to itself: its four normals are its own outward normal, and its six
/// indices name its own four vertices.
pub proof fn lemma_render_well_formed(faces: Seq<VoxelFace>)
    ensures
        render(faces).well_formed(),
        render(faces).positions.len() == 4 * faces.len(),
        render(faces).indices.len() == 6 * faces.len(),
        render(faces).triangles() == 2 * faces.len(),
        forall|n: int, k: int|
            0 <= n < faces.len() && 0 <= k < 4 ==> #[trigger] render(faces).normals[4 * n + k]
                == normal_of(faces[n].face),
        forall|n: int, k: int|
            0 <= n < faces.len() && 0 <= k < 6 ==> 4 * n <= #[trigger] render(faces).indices[6 * n
                + k] < 4 * n + 4,
{
}

/// The quads of a rendered mesh are the faces it was rendered from, place
/// for place: the first corner and the normal of a quad tell which face it
/// is.
pub proof fn lemma_render_quad(faces: Seq<VoxelFace>, n: int, f: VoxelFace)
    ensures
        render(faces).quad_at(n, f) <==> 0 <= n < faces.len() && faces[n] == f,
{
    if render(faces).quad_at(n, f) {
        assert(faces[n].corner(0) == f.corner(0));
        assert(normal_of(faces[n].face) == normal_of(f.face));
    }
}

/// A rendered mesh draws exactly the faces it was rendered from.
pub proof fn lemma_render_shows(faces: Seq<VoxelFace>, f: VoxelFace)
    ensures
        render(faces).shows(f) <==> faces.contains(f),
{
    let mesh = render(faces);
    if mesh.shows(f) {
        let n = choose|n: int| #[trigger] mesh.quad_at(n, f);
        lemma_render_quad(faces, n, f);
    }
    if faces.contains(f) {
        let n = choose|n: int| 0 <= n < faces.len() && faces[n] == f;
        assert(mesh.quad_at(n, f));
    }
}

/// Every triangle of a rendered mesh faces outwards.
pub proof fn lemma_render_winds_outwards(faces: Seq<VoxelFace>)
    ensures
        render(faces).winds_outwards(),
{
    let mesh = render(faces);
    assert forall|t: int, k: int| 0 <= t < mesh.triangles() && 0 <= k < 3 implies
        mesh.triangle_normal(t).dot(mesh.normals[#[trigger] mesh.triangle_vertex(t, k)]) > 0 by {
        lemma_render_winding(faces, t, k);
    }
}

/// Triangle `t` of a rendered mesh faces outwards, as seen from its vertex
/// `k`.
proof fn lemma_render_winding(faces: Seq<VoxelFace>, t: int, k: int)
    requires
        0 <= t < render(faces).triangles(),
        0 <= k < 3,
    ensures
        render(faces).triangle_normal(t).dot(
            render(faces).normals[render(faces).triangle_vertex(t, k)],
        ) > 0,
{
    let mesh = render(faces);
    let n = t / 2;
    let half = t % 2;
    let f = faces[n];
    assert forall|j: int| 0 <= j < 3 implies {
        &&& #[trigger] mesh.triangle_vertex(t, j) == 4 * n + winding_of(f.face, 3 * half + j)
        &&& mesh.positions[mesh.triangle_vertex(t, j)] == f.corner(
            winding_of(f.face, 3 * half + j),
        )
        &&& mesh.normals[mesh.triangle_vertex(t, j)] == normal_of(f.face)
    } by {
        assert((3 * t + j) / 6 == n && (3 * t + j) % 6 == 3 * half + j);
    }
    let a = corner_of(f.face, winding_of(f.face, 3 * half));
    let b = corner_of(f.face, winding_of(f.face, 3 * half + 1));
    let c = corner_of(f.face, winding_of(f.face, 3 * half + 2));
    assert(f.corner(winding_of(f.face, 3 * half + 1)).minus(f.corner(winding_of(f.face, 3 * half)))
        == b.minus(a));
    assert(f.corner(winding_of(f.face, 3 * half + 2)).minus(f.corner(winding_of(f.face, 3 * half)))
        == c.minus(a));
    lemma_face_winding(f.face, half);
    assert(normal_of(f.face).dot(normal_of(f.face)) == 1) by {
        lemma_unit_normal(f.face);
    }
}

/// Buffers are well formed exactly if their view is.
pub proof fn lemma_well_formed_view(mesh: MeshBuffers)
    ensures
        mesh.well_formed() <==> mesh@.well_formed(),
{
    assert(mesh@.positions.len() == mesh.positions@.len());
    assert(mesh@.normals.len() == mesh.normals@.len());
    assert(mesh@.indices.len() == mesh.indices@.len());
    if mesh.well_formed() {
        assert forall|i: int| 0 <= i < mesh@.indices.len() implies 0 <= #[trigger] mesh@.indices[i]
            < mesh@.positions.len() by {
            assert(mesh@.indices[i] == mesh.indices@[i] as int);
        }
    }
    if mesh@.well_formed() {
        assert forall|i: int| 0 <= i < mesh.indices@.len() implies (#[trigger] mesh.indices@[i])
            < mesh.positions@.len() by {
            assert(mesh@.indices[i] == mesh.indices@[i] as int);
        }
    }
}

/// Buffers with the same view hold the same values, entry for entry.
pub proof fn lemma_view_determines_buffers(a: MeshBuffers, b: MeshBuffers)
    requires
        a@ == b@,
    ensures
        a.positions@ == b.positions@,
        a.normals@ == b.normals@,
        a.indices@ == b.indices@,
{
    assert(a.positions@.len() == a@.positions.len());
    assert forall|i: int| 0 <= i < a.positions@.len() implies a.positions@[i]
        == b.positions@[i] by {
        assert(a@.positions[i] == a.positions@[i]@);
    }
    assert(a.normals@.len() == a@.normals.len());
    assert forall|i: int| 0 <= i < a.normals@.len() implies a.normals@[i] == b.normals@[i] by {
        assert(a@.normals[i] == a.normals@[i]@);
    }
    assert(a.indices@.len() == a@.indices.len());
    assert forall|i: int| 0 <= i < a.indices@.len() implies a.indices@[i] == b.indices@[i] by {
        assert(a@.indices[i] == a.indices@[i] as int);
    }
}

} // verus!
