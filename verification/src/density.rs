//! The density field: which lattice points are solid.

use vstd::prelude::*;

verus! {

/// `noise::Perlin`, a seeded Perlin noise generator. Nothing is known here of
/// what a generator holds: it is handed on to the classifier as it is.
#[verifier::external_type_specification]
#[verifier::external_body]
pub struct ExPerlin(noise::Perlin);

/// `noise::Perlin::new` makes a generator from a seed. It accepts every seed;
/// nothing is claimed of the generator it returns.
pub assume_specification[ noise::Perlin::new ](seed: u32) -> (generator: noise::Perlin)
;

/// The seed of the noise generator unless chosen otherwise.
pub const DEFAULT_SEED: u32 = 0;

/// Whether a classifier accepts every lattice point, whatever the generator.
pub open spec fn total<F: Fn(i64, i64, i64, &noise::Perlin) -> bool>(classify: F) -> bool {
    forall|x: i64, y: i64, z: i64, generator: noise::Perlin| #[trigger]
        call_requires(classify, (x, y, z, &generator))
}

/// Whether a classifier always gives the same answer for the same generator
/// and point.
pub open spec fn deterministic<F: Fn(i64, i64, i64, &noise::Perlin) -> bool>(classify: F) -> bool {
    forall|x: i64, y: i64, z: i64, generator: noise::Perlin|
        !(#[trigger] call_ensures(classify, (x, y, z, &generator), true) && call_ensures(
            classify,
            (x, y, z, &generator),
            false,
        ))
}

/// Whether a classifier, given this generator, answers `true` exactly at the
/// points of `solid`.
pub open spec fn decides<F: Fn(i64, i64, i64, &noise::Perlin) -> bool>(
    classify: F,
    generator: noise::Perlin,
    solid: Set<(int, int, int)>,
) -> bool {
    forall|x: i64, y: i64, z: i64, answer: bool| #[trigger]
        call_ensures(classify, (x, y, z, &generator), answer) ==> answer == solid.contains(
            (x as int, y as int, z as int),
        )
}

/// The points at which a classifier, given this generator, can answer `true`.
pub open spec fn solid_points<F: Fn(i64, i64, i64, &noise::Perlin) -> bool>(
    classify: F,
    generator: noise::Perlin,
) -> Set<(int, int, int)> {
    Set::new(
        |p: (int, int, int)|
            i64::MIN <= p.0 <= i64::MAX && i64::MIN <= p.1 <= i64::MAX && i64::MIN <= p.2
                <= i64::MAX && call_ensures(
                classify,
                (p.0 as i64, p.1 as i64, p.2 as i64, &generator),
                true,
            ),
    )
}

/// A solidity classifier over the whole lattice, in world coordinates.
///
/// The field owns a Perlin noise generator, seeded once, and a classifier
/// that turns the generator's noise around a lattice point into solid or
/// empty: typically it samples the noise at the scaled point and compares it
/// with a threshold. The field holds no mutable state: asking twice about the
/// same point gives the same answer, so chunks meshed independently agree
/// about every voxel they both look at.
pub struct DensityField<F: Fn(i64, i64, i64, &noise::Perlin) -> bool> {
    generator: noise::Perlin,
    classify: F,
    model: Ghost<Set<(int, int, int)>>,
}

impl<F: Fn(i64, i64, i64, &noise::Perlin) -> bool> DensityField<F> {
    #[verifier::type_invariant]
    spec fn consistent(&self) -> bool {
        total(self.classify) && decides(self.classify, self.generator, self.model@)
    }

    /// The set of solid lattice points.
    pub closed spec fn solid(&self) -> Set<(int, int, int)> {
        self.model@
    }

    /// The noise generator of the field.
    pub closed spec fn generator(&self) -> noise::Perlin {
        self.generator
    }

    /// A field over Perlin noise of the given seed. The classifier must be
    /// defined everywhere and depend on nothing but its arguments.
    pub fn new(seed: u32, classify: F) -> (field: Self)
        requires
            total(classify),
            deterministic(classify),
        ensures
            field.solid() == solid_points(classify, field.generator()),
    {
        let generator = noise::Perlin::new(seed);
        DensityField { generator, classify, model: Ghost(solid_points(classify, generator)) }
    }

    /// A field over Perlin noise of the given seed, with a classifier that is
    /// defined everywhere and is known to answer `true` exactly at the points
    /// of `solid`, whatever the generator.
    pub fn with_model(seed: u32, classify: F, Ghost(solid): Ghost<Set<(int, int, int)>>) -> (field:
        Self)
        requires
            total(classify),
            forall|generator: noise::Perlin| decides(classify, generator, solid),
        ensures
            field.solid() == solid,
    {
        let generator = noise::Perlin::new(seed);
        DensityField { generator, classify, model: Ghost(solid) }
    }

    /// Whether the lattice point `(x, y, z)` is solid.
    pub fn is_solid(&self, x: i64, y: i64, z: i64) -> (solid: bool)
        ensures
            solid == self.solid().contains((x as int, y as int, z as int)),
    {
        proof {
            use_type_invariant(self);
        }
        (self.classify)(x, y, z, &self.generator)
    }
}

} // verus!
