//! Tiling chunks over a square grid around the origin.

use crate::density::DensityField;
use crate::exposure::chunk_mesh;
use crate::geometry::{corner_of, Point3};
use crate::mesh::{MeshBuffers, VoxelFace};
use crate::mesher::{mesh_chunk, MAX_CHUNK_SIZE};
use vstd::arithmetic::div_mod::{
    lemma_fundamental_div_mod,
    lemma_fundamental_div_mod_converse,
    lemma_mod_pos_bound,
};
use vstd::prelude::*;

verus! {

/// How many chunks the grid reaches out from the origin unless chosen
/// otherwise.
pub const DEFAULT_RENDER_DISTANCE: u32 = 16;

/// The largest render distance: beyond it chunk coordinates leave the range
/// of 32-bit integers.
pub const MAX_RENDER_DISTANCE: u32 = 0x8000_0000;

/// Where a chunk's mesh goes in the world: the offset to add to its positions.
#[derive(Clone, Copy, Debug, PartialEq, Eq, Structural)]
pub struct Placement {
    pub x: i64,
    pub y: i64,
    pub z: i64,
}

impl View for Placement {
    type V = Point3;

    open spec fn view(&self) -> Point3 {
        Point3 { x: self.x as int, y: self.y as int, z: self.z as int }
    }
}

/// The offset of the chunk at `(cx, cz)`: chunks lie side by side on a
/// flat grid, and the whole band is lowered by one chunk height, so that
/// local heights `0` to `size` come to lie at world heights `-size` to `0`.
pub open spec fn placement_of(cx: int, cz: int, size: int) -> Point3 {
    Point3 { x: cx * size, y: -size, z: cz * size }
}

/// Placing a chunk puts every voxel where the field has it: a corner of the
/// voxel at local `(x, y, z)` comes to lie at the corner of the world voxel
/// `(cx * size + x, y, cz * size + z)`, one chunk height lower.
pub proof fn lemma_placement_matches_world(cx: int, cz: int, size: int, f: VoxelFace, k: int)
    ensures
        placement_of(cx, cz, size).plus(f.corner(k)) == (Point3 {
            x: cx * size + f.x,
            y: f.y - size,
            z: cz * size + f.z,
        }).plus(corner_of(f.face, k)),
{
}

/// The place in the generated sequence of the chunk at `(cx, cz)`, for a grid
/// that reaches `distance` chunks out: rows of equal `cx` from the lowest up,
/// each row from the lowest `cz` up.
pub open spec fn grid_index(distance: int, cx: int, cz: int) -> int {
    (cx + distance) * (2 * distance) + (cz + distance)
}

/// Every place in the generated sequence belongs to exactly one chunk of the
/// grid.
pub proof fn lemma_grid_index_covers(distance: int, k: int)
    requires
        0 < distance,
        0 <= k < (2 * distance) * (2 * distance),
    ensures
        ({
            let cx = k / (2 * distance) - distance;
            let cz = k % (2 * distance) - distance;
            &&& -distance <= cx < distance
            &&& -distance <= cz < distance
            &&& grid_index(distance, cx, cz) == k
        }),
        forall|cx: int, cz: int|
            -distance <= cz < distance && #[trigger] grid_index(distance, cx, cz) == k ==> cx == k
                / (2 * distance) - distance && cz == k % (2 * distance) - distance,
{
    let side = 2 * distance;
    lemma_fundamental_div_mod(k, side);
    lemma_mod_pos_bound(k, side);
    let row = k / side;
    assert(0 <= row < side) by (nonlinear_arith)
        requires
            k == side * row + k % side,
            0 <= k % side < side,
            0 <= k < side * side,
            0 < side,
    {
    }
    assert(row * side == side * row) by (nonlinear_arith);
    assert forall|cx: int, cz: int|
        -distance <= cz < distance && #[trigger] grid_index(distance, cx, cz) == k implies cx == k
        / side - distance && cz == k % side - distance by {
        lemma_fundamental_div_mod_converse(k, side, cx + distance, cz + distance);
    }
}

/// A square grid of equally sized chunks centred on the origin.
pub struct TerrainGrid {
    chunk_size: u32,
}

impl TerrainGrid {
    #[verifier::type_invariant]
    spec fn valid(&self) -> bool {
        0 < self.chunk_size <= MAX_CHUNK_SIZE
    }

    /// The edge length of every chunk of the grid.
    pub closed spec fn size(&self) -> int {
        self.chunk_size as int
    }

    /// A grid of chunks with the given edge length.
    pub fn new(chunk_size: u32) -> (grid: TerrainGrid)
        requires
            0 < chunk_size <= MAX_CHUNK_SIZE,
        ensures
            grid.size() == chunk_size,
    {
        TerrainGrid { chunk_size }
    }

    /// The edge length of every chunk of the grid.
    pub fn chunk_size(&self) -> (size: u32)
        ensures
            size == self.size(),
            0 < size <= MAX_CHUNK_SIZE,
    {
        proof {
            use_type_invariant(self);
        }
        self.chunk_size
    }

    /// Where the mesh of the chunk at `origin` goes.
    pub fn placement(&self, origin: (i32, i32)) -> (placement: Placement)
        ensures
            placement@ == placement_of(origin.0 as int, origin.1 as int, self.size()),
    {
        proof {
            use_type_invariant(self);
        }
        let size = self.chunk_size as i64;
        assert(-0x8000_0000 * 563 <= (origin.0 as int) * (size as int) <= 0x8000_0000 * 563)
            by (nonlinear_arith)
            requires
                -0x8000_0000 <= origin.0 as int <= 0x8000_0000,
                0 < size as int <= 563,
        ;
        assert(-0x8000_0000 * 563 <= (origin.1 as int) * (size as int) <= 0x8000_0000 * 563)
            by (nonlinear_arith)
            requires
                -0x8000_0000 <= origin.1 as int <= 0x8000_0000,
                0 < size as int <= 563,
        ;
        Placement { x: origin.0 as i64 * size, y: -size, z: origin.1 as i64 * size }
    }

    /// Meshes every chunk whose coordinates `cx` and `cz` both lie in
    /// `[-render_distance, render_distance)`, and pairs each mesh with its
    /// placement. The chunks are independent of one another.
    pub fn generate<F: Fn(i64, i64, i64, &noise::Perlin) -> bool>(
        &self,
        render_distance: u32,
        field: &DensityField<F>,
    ) -> (chunks: Vec<(MeshBuffers, Placement)>)
        requires
            render_distance <= MAX_RENDER_DISTANCE,
        ensures
            chunks@.len() == (2 * render_distance) * (2 * render_distance),
            forall|cx: int, cz: int|
                -render_distance <= cx < render_distance && -render_distance <= cz
                    < render_distance ==> {
                    let k = #[trigger] grid_index(render_distance as int, cx, cz);
                    &&& 0 <= k < chunks@.len()
                    &&& chunks@[k].0@ == chunk_mesh(field.solid(), cx, cz, self.size())
                    &&& chunks@[k].0.well_formed()
                    &&& chunks@[k].1@ == placement_of(cx, cz, self.size())
                },
    {
        let size = self.chunk_size();
        let distance = render_distance as i64;
        let ghost d = render_distance as int;
        let mut chunks: Vec<(MeshBuffers, Placement)> = Vec::new();
        let mut cx: i64 = -distance;
        assert(grid_index(d, -d, -d) == 0) by (nonlinear_arith);
        while cx < distance
            invariant
                0 < size <= MAX_CHUNK_SIZE,
                size == self.size(),
                distance == d,
                0 <= d <= MAX_RENDER_DISTANCE,
                -d <= cx <= d,
                chunks@.len() == grid_index(d, cx as int, -d),
                forall|px: int, pz: int|
                    -d <= px < cx && -d <= pz < d ==> {
                        let k = #[trigger] grid_index(d, px, pz);
                        &&& 0 <= k < chunks@.len()
                        &&& chunks@[k].0@ == chunk_mesh(field.solid(), px, pz, size as int)
                        &&& chunks@[k].0.well_formed()
                        &&& chunks@[k].1@ == placement_of(px, pz, size as int)
                    },
            decreases distance - cx,
        {
            let mut cz: i64 = -distance;
            while cz < distance
                invariant
                    0 < size <= MAX_CHUNK_SIZE,
                    size == self.size(),
                    distance == d,
                    0 <= d <= MAX_RENDER_DISTANCE,
                    -d <= cx < d,
                    -d <= cz <= d,
                    chunks@.len() == grid_index(d, cx as int, cz as int),
                    forall|px: int, pz: int|
                        -d <= px < d && -d <= pz < d && (px < cx || (px == cx && pz < cz)) ==> {
                            let k = #[trigger] grid_index(d, px, pz);
                            &&& 0 <= k < chunks@.len()
                            &&& chunks@[k].0@ == chunk_mesh(field.solid(), px, pz, size as int)
                            &&& chunks@[k].0.well_formed()
                            &&& chunks@[k].1@ == placement_of(px, pz, size as int)
                        },
                decreases distance - cz,
            {
                let origin = (cx as i32, cz as i32);
                let mesh = mesh_chunk(origin, size, field);
                let placement = self.placement(origin);
                let ghost before = chunks@;
                chunks.push((mesh, placement));
                proof {
                    assert forall|px: int, pz: int|
                        -d <= px < d && -d <= pz < d && (px < cx || (px == cx && pz < cz + 1))
                        implies {
                        let k = #[trigger] grid_index(d, px, pz);
                        &&& 0 <= k < chunks@.len()
                        &&& chunks@[k].0@ == chunk_mesh(field.solid(), px, pz, size as int)
                        &&& chunks@[k].0.well_formed()
                        &&& chunks@[k].1@ == placement_of(px, pz, size as int)
                    } by {
                        if !(px == cx && pz == cz) {
                            // An earlier chunk keeps its place.
                            assert(chunks@[grid_index(d, px, pz)] == before[grid_index(d, px, pz)]);
                        }
                    }
                }
                cz += 1;
            }
            assert(grid_index(d, cx as int, d) == grid_index(d, cx + 1, -d)) by (nonlinear_arith);
            cx += 1;
        }
        assert(grid_index(d, d, -d) == (2 * d) * (2 * d)) by (nonlinear_arith);
        chunks
    }
}

} // verus!
