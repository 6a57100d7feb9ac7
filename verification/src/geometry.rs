//! Lattice vectors and the six faces of a unit voxel.

use vstd::prelude::*;

verus! {

/// A point or direction of the integer lattice with unbounded components, for
/// use in contracts and proofs.
pub struct Point3 {
    pub x: int,
    pub y: int,
    pub z: int,
}

impl Point3 {
    /// Componentwise sum.
    pub open spec fn plus(self, other: Point3) -> Point3 {
        Point3 { x: self.x + other.x, y: self.y + other.y, z: self.z + other.z }
    }

    /// Componentwise difference.
    pub open spec fn minus(self, other: Point3) -> Point3 {
        Point3 { x: self.x - other.x, y: self.y - other.y, z: self.z - other.z }
    }

    /// Cross product, right-handed.
    pub open spec fn cross(self, other: Point3) -> Point3 {
        Point3 {
            x: self.y * other.z - self.z * other.y,
            y: self.z * other.x - self.x * other.z,
            z: self.x * other.y - self.y * other.x,
        }
    }

    /// Dot product.
    pub open spec fn dot(self, other: Point3) -> int {
        self.x * other.x + self.y * other.y + self.z * other.z
    }
}

/// A lattice vector with machine-integer components: a mesh position or a
/// face normal.
#[derive(Clone, Copy, Debug, PartialEq, Eq, Structural)]
pub struct Vec3i {
    pub x: i32,
    pub y: i32,
    pub z: i32,
}

impl View for Vec3i {
    type V = Point3;

    open spec fn view(&self) -> Point3 {
        Point3 { x: self.x as int, y: self.y as int, z: self.z as int }
    }
}

impl Vec3i {
    /// The vector with the given components.
    pub fn new(x: i32, y: i32, z: i32) -> (v: Vec3i)
        ensures
            v == (Vec3i { x, y, z }),
    {
        Vec3i { x, y, z }
    }
}

/// One of the six faces of a voxel, named by the direction it looks in:
/// `Top` is +Y, `Bottom` -Y, `Right` +X, `Left` -X, `Front` +Z, `Back` -Z.
#[derive(Clone, Copy, Debug, PartialEq, Eq, Structural)]
pub enum Face {
    Top,
    Bottom,
    Right,
    Left,
    Front,
    Back,
}

/// The faces in the order in which a voxel emits them.
pub open spec fn face_at(k: int) -> Face {
    if k == 0 {
        Face::Top
    } else if k == 1 {
        Face::Bottom
    } else if k == 2 {
        Face::Right
    } else if k == 3 {
        Face::Left
    } else if k == 4 {
        Face::Front
    } else {
        Face::Back
    }
}

/// The position of a face in the emission order; inverse of [`face_at`].
pub open spec fn face_rank(face: Face) -> int {
    match face {
        Face::Top => 0,
        Face::Bottom => 1,
        Face::Right => 2,
        Face::Left => 3,
        Face::Front => 4,
        Face::Back => 5,
    }
}

/// The outward unit normal of a face.
pub open spec fn normal_of(face: Face) -> Point3 {
    match face {
        Face::Top => Point3 { x: 0, y: 1, z: 0 },
        Face::Bottom => Point3 { x: 0, y: -1, z: 0 },
        Face::Right => Point3 { x: 1, y: 0, z: 0 },
        Face::Left => Point3 { x: -1, y: 0, z: 0 },
        Face::Front => Point3 { x: 0, y: 0, z: 1 },
        Face::Back => Point3 { x: 0, y: 0, z: -1 },
    }
}

/// Whether the face looks along the positive direction of its axis.
pub open spec fn looks_positive(face: Face) -> bool {
    face == Face::Top || face == Face::Right || face == Face::Front
}

/// Corner `k` (0 to 3) of a face, as an offset from the voxel's minimum
/// corner. The four corners go round the face.
pub open spec fn corner_of(face: Face, k: int) -> Point3 {
    match face {
        Face::Top => if k == 0 {
            Point3 { x: 0, y: 1, z: 0 }
        } else if k == 1 {
            Point3 { x: 1, y: 1, z: 0 }
        } else if k == 2 {
            Point3 { x: 1, y: 1, z: 1 }
        } else {
            Point3 { x: 0, y: 1, z: 1 }
        },
        Face::Bottom => if k == 0 {
            Point3 { x: 0, y: 0, z: 0 }
        } else if k == 1 {
            Point3 { x: 1, y: 0, z: 0 }
        } else if k == 2 {
            Point3 { x: 1, y: 0, z: 1 }
        } else {
            Point3 { x: 0, y: 0, z: 1 }
        },
        Face::Right => if k == 0 {
            Point3 { x: 1, y: 0, z: 0 }
        } else if k == 1 {
            Point3 { x: 1, y: 0, z: 1 }
        } else if k == 2 {
            Point3 { x: 1, y: 1, z: 1 }
        } else {
            Point3 { x: 1, y: 1, z: 0 }
        },
        Face::Left => if k == 0 {
            Point3 { x: 0, y: 0, z: 0 }
        } else if k == 1 {
            Point3 { x: 0, y: 0, z: 1 }
        } else if k == 2 {
            Point3 { x: 0, y: 1, z: 1 }
        } else {
            Point3 { x: 0, y: 1, z: 0 }
        },
        Face::Front => if k == 0 {
            Point3 { x: 0, y: 0, z: 1 }
        } else if k == 1 {
            Point3 { x: 0, y: 1, z: 1 }
        } else if k == 2 {
            Point3 { x: 1, y: 1, z: 1 }
        } else {
            Point3 { x: 1, y: 0, z: 1 }
        },
        Face::Back => if k == 0 {
            Point3 { x: 0, y: 0, z: 0 }
        } else if k == 1 {
            Point3 { x: 0, y: 1, z: 0 }
        } else if k == 2 {
            Point3 { x: 1, y: 1, z: 0 }
        } else {
            Point3 { x: 1, y: 0, z: 0 }
        },
    }
}

/// Which corner (0 to 3) the `k`-th index (0 to 5) of a face's two triangles
/// refers to. Faces that look in a positive direction run their corners
/// backwards, the others forwards, so that both triangles of every face are
/// counter-clockwise when seen from outside the voxel.
pub open spec fn winding_of(face: Face, k: int) -> int {
    if looks_positive(face) {
        if k == 0 {
            3
        } else if k == 1 {
            2
        } else if k == 2 {
            1
        } else if k == 3 {
            3
        } else if k == 4 {
            1
        } else {
            0
        }
    } else {
        if k == 0 {
            0
        } else if k == 1 {
            1
        } else if k == 2 {
            3
        } else if k == 3 {
            1
        } else if k == 4 {
            2
        } else {
            3
        }
    }
}

impl Face {
    /// The outward unit normal.
    pub fn normal(self) -> (n: Vec3i)
        ensures
            n@ == normal_of(self),
    {
        match self {
            Face::Top => Vec3i::new(0, 1, 0),
            Face::Bottom => Vec3i::new(0, -1, 0),
            Face::Right => Vec3i::new(1, 0, 0),
            Face::Left => Vec3i::new(-1, 0, 0),
            Face::Front => Vec3i::new(0, 0, 1),
            Face::Back => Vec3i::new(0, 0, -1),
        }
    }
}

/// The emission order lists every face exactly once.
pub proof fn lemma_face_order(face: Face)
    ensures
        0 <= face_rank(face) < 6,
        face_at(face_rank(face)) == face,
{
}

/// Every face lies in the plane its normal points out of: along the normal's
/// axis all four corners sit at 1 for a face that looks in the positive
/// direction and at 0 otherwise; and the four corners are distinct.
pub proof fn lemma_corners_on_face(face: Face, j: int, k: int)
    requires
        0 <= j < 4,
        0 <= k < 4,
    ensures
        corner_of(face, k).dot(normal_of(face)) == (if looks_positive(face) {
            1int
        } else {
            0int
        }),
        0 <= corner_of(face, k).x <= 1,
        0 <= corner_of(face, k).y <= 1,
        0 <= corner_of(face, k).z <= 1,
        j != k ==> corner_of(face, j) != corner_of(face, k),
{
}

/// Every face normal has length one.
pub proof fn lemma_unit_normal(face: Face)
    ensures
        normal_of(face).dot(normal_of(face)) == 1,
{
    let n = normal_of(face);
    lemma_unit_product(n.x, n.x);
    lemma_unit_product(n.y, n.y);
    lemma_unit_product(n.z, n.z);
}

/// Both triangles of a face wind counter-clockwise seen from outside: the
/// cross product of their edges is the face's outward normal itself.
pub proof fn lemma_face_winding(face: Face, t: int)
    requires
        0 <= t < 2,
    ensures
        ({
            let a = corner_of(face, winding_of(face, 3 * t));
            let b = corner_of(face, winding_of(face, 3 * t + 1));
            let c = corner_of(face, winding_of(face, 3 * t + 2));
            b.minus(a).cross(c.minus(a)) == normal_of(face)
        }),
{
    let a = corner_of(face, winding_of(face, 3 * t));
    let b = corner_of(face, winding_of(face, 3 * t + 1));
    let c = corner_of(face, winding_of(face, 3 * t + 2));
    lemma_cross_of_steps(b.minus(a), c.minus(a));
}

/// Spells out the six products of a cross product whose factors are lattice
/// steps of at most one unit.
proof fn lemma_cross_of_steps(u: Point3, v: Point3)
    requires
        -1 <= u.x <= 1,
        -1 <= u.y <= 1,
        -1 <= u.z <= 1,
        -1 <= v.x <= 1,
        -1 <= v.y <= 1,
        -1 <= v.z <= 1,
    ensures
        u.cross(v) == (Point3 {
            x: unit_product(u.y, v.z) - unit_product(u.z, v.y),
            y: unit_product(u.z, v.x) - unit_product(u.x, v.z),
            z: unit_product(u.x, v.y) - unit_product(u.y, v.x),
        }),
{
    lemma_unit_product(u.y, v.z);
    lemma_unit_product(u.z, v.y);
    lemma_unit_product(u.z, v.x);
    lemma_unit_product(u.x, v.z);
    lemma_unit_product(u.x, v.y);
    lemma_unit_product(u.y, v.x);
}

/// The product of two integers out of -1, 0 and 1, by cases.
spec fn unit_product(a: int, b: int) -> int {
    if a == 0 || b == 0 {
        0
    } else if a == b {
        1
    } else {
        -1
    }
}

proof fn lemma_unit_product(a: int, b: int)
    by (nonlinear_arith)
    requires
        -1 <= a <= 1,
        -1 <= b <= 1,
    ensures
        a * b == unit_product(a, b),
{
}

} // verus!
