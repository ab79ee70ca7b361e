//! A world: a seed and a parameter set, bound to the elevation field they generate.

use crate::grid::index_of;
use crate::grid::Site;
use crate::noisemap::falloff_covers;
use crate::noisemap::highest;
use crate::noisemap::is_field;
use crate::noisemap::is_field_with_falloff;
use crate::noisemap::kernel_covers;
use crate::noisemap::lowest;
use crate::noisemap::FalloffParameters;
use crate::noisemap::NoiseMap;
use crate::noisemap::NoiseParameters;
use crate::noisemap::OctaveState;
use crate::scalar::Scalar;
use crate::scalar::ONE_BITS;
use vstd::prelude::*;

verus! {

/// Everything that shapes a world but its seed.
#[derive(Debug, Copy, Clone)]
pub struct WorldParameters {
    pub width: usize,
    pub height: usize,
    pub elevation_parameters: NoiseParameters,
    /// The falloff to apply to the raw field, if any.
    pub falloff: Option<FalloffParameters>,
    /// The elevation below which a cell is sea.
    pub sea_level: Scalar,
}

/// Why a parameter set generates no world.
#[derive(Debug, Copy, Clone, PartialEq, Eq, Structural)]
pub enum ParameterError {
    /// The grid has no columns.
    ZeroWidth,
    /// The grid has no rows.
    ZeroHeight,
    /// The number of cells is beyond what the machine can index.
    TooManyCells,
    /// A falloff is asked of a field without octaves: such a field is flat, and the falloff
    /// has no range of values to scale by.
    FalloffWithoutOctaves,
    /// The midpoint of the falloff curve is negative or not a number.
    NegativeMidpoint,
    /// Persistence or lacunarity is itself infinite or not a number.
    NonFiniteFactor,
    /// Persistence or lacunarity is a finite number, but its products over the octaves, which
    /// are the amplitudes or the frequencies, leave the finite numbers.
    NonFiniteGrowth,
}

impl ParameterError {
    /// What is wrong, in words.
    pub open spec fn described(self) -> Seq<char> {
        match self {
            ParameterError::ZeroWidth => "the world has no columns"@,
            ParameterError::ZeroHeight => "the world has no rows"@,
            ParameterError::TooManyCells => "the world has more cells than can be indexed"@,
            ParameterError::FalloffWithoutOctaves => "a falloff needs at least one octave"@,
            ParameterError::NegativeMidpoint => "the midpoint of the falloff is negative or no number"@,
            ParameterError::NonFiniteFactor => "persistence or lacunarity is no finite number"@,
            ParameterError::NonFiniteGrowth => "amplitude or frequency grows out of the finite numbers"@,
        }
    }

    /// What is wrong, in words.
    pub fn message(&self) -> (text: &'static str)
        ensures
            text@ == self.described(),
    {
        match self {
            ParameterError::ZeroWidth => "the world has no columns",
            ParameterError::ZeroHeight => "the world has no rows",
            ParameterError::TooManyCells => "the world has more cells than can be indexed",
            ParameterError::FalloffWithoutOctaves => "a falloff needs at least one octave",
            ParameterError::NegativeMidpoint => "the midpoint of the falloff is negative or no number",
            ParameterError::NonFiniteFactor => "persistence or lacunarity is no finite number",
            ParameterError::NonFiniteGrowth => "amplitude or frequency grows out of the finite numbers",
        }
    }
}

/// `powers` are the products of a factor over the octaves, from 1 on: each is what `product`
/// may make of the one before and the factor. With persistence for the factor they are the
/// amplitudes that the octaves produce, with lacunarity the frequencies.
pub open spec fn is_growth<P: Fn(Scalar, Scalar) -> Scalar>(
    product: &P,
    factor: Scalar,
    powers: Seq<Scalar>,
) -> bool {
    &&& powers.len() >= 1
    &&& powers[0] == Scalar::one()
    &&& forall|i: int|
        0 <= i < powers.len() - 1 ==> call_ensures(
            product,
            (#[trigger] powers[i], factor),
            powers[i + 1],
        )
}

/// The products of the factor may stay finite through all the octaves.
pub open spec fn stays_finite<P: Fn(Scalar, Scalar) -> Scalar>(
    product: &P,
    factor: Scalar,
    octaves: usize,
) -> bool {
    exists|powers: Seq<Scalar>|
        {
            &&& #[trigger] is_growth(product, factor, powers)
            &&& powers.len() == octaves + 1
            &&& forall|i: int| 0 <= i < powers.len() ==> (#[trigger] powers[i]).finite()
        }
}

/// The products of the factor may reach, within the octaves, one that is infinite or not a
/// number.
pub open spec fn leaves_finite<P: Fn(Scalar, Scalar) -> Scalar>(
    product: &P,
    factor: Scalar,
    octaves: usize,
) -> bool {
    exists|powers: Seq<Scalar>|
        {
            &&& #[trigger] is_growth(product, factor, powers)
            &&& powers.len() <= octaves + 1
            &&& !powers.last().finite()
        }
}

/// Takes the products of a factor over the octaves, one after the other, and stops at the first
/// that is infinite or not a number. Says whether all of them are finite.
pub fn grows_finite<P: Fn(Scalar, Scalar) -> Scalar>(
    product: &P,
    factor: Scalar,
    octaves: usize,
) -> (finite: bool)
    requires
        forall|a: Scalar, b: Scalar| #[trigger] call_requires(product, (a, b)),
    ensures
        finite ==> stays_finite(product, factor, octaves),
        !finite ==> leaves_finite(product, factor, octaves),
{
    let mut power = Scalar::from_bits(ONE_BITS);
    let ghost mut powers: Seq<Scalar> = seq![power];
    let mut i: usize = 0;
    while i < octaves
        invariant
            i <= octaves,
            powers.len() == i + 1,
            powers.last() == power,
            is_growth(product, factor, powers),
            forall|j: int| 0 <= j < powers.len() ==> (#[trigger] powers[j]).finite(),
            forall|a: Scalar, b: Scalar| #[trigger] call_requires(product, (a, b)),
        decreases octaves - i,
    {
        let ghost before = powers;
        power = product(power, factor);
        proof {
            powers = before.push(power);
            assert forall|j: int| 0 <= j < powers.len() - 1 implies call_ensures(
                product,
                (#[trigger] powers[j], factor),
                powers[j + 1],
            ) by {
                if j < before.len() - 1 {
                    assert(powers[j] == before[j]);
                    assert(powers[j + 1] == before[j + 1]);
                }
            }
            assert(is_growth(product, factor, powers));
        }
        if !power.is_finite() {
            return false;
        }
        i += 1;
    }
    true
}

impl WorldParameters {
    /// The first fault that the parameter set shows on its face, if it has one. Without a
    /// falloff a field may have no octaves; it is then flat.
    pub open spec fn checked(&self) -> Result<(), ParameterError> {
        if self.width == 0 {
            Err(ParameterError::ZeroWidth)
        } else if self.height == 0 {
            Err(ParameterError::ZeroHeight)
        } else if self.width * self.height > usize::MAX {
            Err(ParameterError::TooManyCells)
        } else if self.falloff is Some && self.elevation_parameters.octaves == 0 {
            Err(ParameterError::FalloffWithoutOctaves)
        } else if self.falloff is Some && !Scalar::zero().at_most(self.falloff->Some_0.b) {
            Err(ParameterError::NegativeMidpoint)
        } else if !self.elevation_parameters.persistence.finite()
            || !self.elevation_parameters.lacunarity.finite() {
            Err(ParameterError::NonFiniteFactor)
        } else {
            Ok(())
        }
    }

    /// `done` is a verdict on the parameter set. A fault that the set shows on its face is
    /// the verdict. A set without such a fault is accepted where the amplitudes and the
    /// frequencies may stay finite through all the octaves, and refused for its growth where
    /// an amplitude or a frequency may leave the finite numbers. Where `product` gives one
    /// result per input, only one of the two can be.
    pub open spec fn validated<P: Fn(Scalar, Scalar) -> Scalar>(
        &self,
        product: &P,
        done: Result<(), ParameterError>,
    ) -> bool {
        let noise = self.elevation_parameters;
        if self.checked() is Err {
            done == self.checked()
        } else if done is Ok {
            &&& stays_finite(product, noise.persistence, noise.octaves)
            &&& stays_finite(product, noise.lacunarity, noise.octaves)
        } else {
            &&& done->Err_0 == ParameterError::NonFiniteGrowth
            &&& leaves_finite(product, noise.persistence, noise.octaves) || leaves_finite(
                product,
                noise.lacunarity,
                noise.octaves,
            )
        }
    }

    /// Checks the parameter set. The products of persistence and of lacunarity over the
    /// octaves are taken by `product`.
    pub fn validate<P: Fn(Scalar, Scalar) -> Scalar>(&self, product: &P) -> (done: Result<
        (),
        ParameterError,
    >)
        requires
            forall|a: Scalar, b: Scalar| #[trigger] call_requires(product, (a, b)),
        ensures
            self.validated(product, done),
    {
        if self.width == 0 {
            return Err(ParameterError::ZeroWidth);
        }
        if self.height == 0 {
            return Err(ParameterError::ZeroHeight);
        }
        if self.width.checked_mul(self.height).is_none() {
            return Err(ParameterError::TooManyCells);
        }
        match self.falloff {
            Some(falloff) => {
                if self.elevation_parameters.octaves == 0 {
                    return Err(ParameterError::FalloffWithoutOctaves);
                }
                if falloff.b.is_nan() || falloff.b.lt(Scalar::from_bits(0)) {
                    return Err(ParameterError::NegativeMidpoint);
                }
            },
            None => {},
        }
        let noise = &self.elevation_parameters;
        if !noise.persistence.is_finite() || !noise.lacunarity.is_finite() {
            return Err(ParameterError::NonFiniteFactor);
        }
        if !grows_finite(product, noise.persistence, noise.octaves) {
            return Err(ParameterError::NonFiniteGrowth);
        }
        if !grows_finite(product, noise.lacunarity, noise.octaves) {
            return Err(ParameterError::NonFiniteGrowth);
        }
        Ok(())
    }
}

/// `map` is an elevation field of the seed under the parameter set: the raw field where no
/// falloff is asked, else a raw field with the falloff applied.
pub open spec fn is_elevation<
    K: Fn(&NoiseParameters, Site, (u32, u32), OctaveState) -> OctaveState,
    F: Fn(&FalloffParameters, Site, Scalar, Scalar, Scalar) -> Scalar,
>(kernel: &K, falloff_kernel: &F, seed: u64, parameters: WorldParameters, map: NoiseMap) -> bool {
    &&& map.wf()
    &&& map.width == parameters.width
    &&& map.height == parameters.height
    &&& match parameters.falloff {
        Some(falloff) => is_field_with_falloff(
            kernel,
            falloff_kernel,
            &parameters.elevation_parameters,
            &falloff,
            seed,
            parameters.width,
            parameters.height,
            map,
        ),
        None => {
            &&& is_field(
                kernel,
                &parameters.elevation_parameters,
                seed,
                parameters.width,
                parameters.height,
                map.map@,
            )
            &&& map.min == lowest(map.map@)
            &&& map.max == highest(map.map@)
        },
    }
}

/// The two kernels accept every cell of the grid of the parameter set.
pub open spec fn kernels_cover<
    K: Fn(&NoiseParameters, Site, (u32, u32), OctaveState) -> OctaveState,
    F: Fn(&FalloffParameters, Site, Scalar, Scalar, Scalar) -> Scalar,
>(kernel: &K, falloff_kernel: &F, parameters: WorldParameters) -> bool {
    &&& kernel_covers(
        kernel,
        &parameters.elevation_parameters,
        parameters.width,
        parameters.height,
    )
    &&& parameters.falloff is Some ==> falloff_covers(
        falloff_kernel,
        &parameters.falloff->Some_0,
        parameters.width,
        parameters.height,
    )
}

/// A generated world.
pub struct World {
    pub seed: u64,
    pub parameters: WorldParameters,
    pub elevation: NoiseMap,
}

impl World {
    /// Generates the world of a seed and a parameter set, or says what is wrong with the
    /// parameter set.
    pub fn new<
        K: Fn(&NoiseParameters, Site, (u32, u32), OctaveState) -> OctaveState,
        F: Fn(&FalloffParameters, Site, Scalar, Scalar, Scalar) -> Scalar,
        P: Fn(Scalar, Scalar) -> Scalar,
    >(
        seed: u64,
        parameters: WorldParameters,
        kernel: &K,
        falloff_kernel: &F,
        product: &P,
    ) -> (world: Result<World, ParameterError>)
        requires
            kernels_cover(kernel, falloff_kernel, parameters),
            forall|a: Scalar, b: Scalar| #[trigger] call_requires(product, (a, b)),
        ensures
            world is Ok ==> parameters.validated(product, Ok(())),
            world is Err ==> parameters.validated(product, Err(world->Err_0)),
            world is Ok ==> {
                &&& world->Ok_0.seed == seed
                &&& world->Ok_0.parameters == parameters
                &&& is_elevation(kernel, falloff_kernel, seed, parameters, world->Ok_0.elevation)
            },
    {
        match parameters.validate(product) {
            Err(fault) => Err(fault),
            Ok(()) => {
                let elevation = Self::generate_elevation(seed, &parameters, kernel, falloff_kernel);
                Ok(World { seed, parameters, elevation })
            },
        }
    }

    /// Generates the world anew from another seed and the parameter set as it stands. The
    /// elevation field is replaced as a whole; where the parameter set is at fault, the world
    /// stays as it was.
    pub fn generate<
        K: Fn(&NoiseParameters, Site, (u32, u32), OctaveState) -> OctaveState,
        F: Fn(&FalloffParameters, Site, Scalar, Scalar, Scalar) -> Scalar,
        P: Fn(Scalar, Scalar) -> Scalar,
    >(&mut self, seed: u64, kernel: &K, falloff_kernel: &F, product: &P) -> (done: Result<
        (),
        ParameterError,
    >)
        requires
            kernels_cover(kernel, falloff_kernel, old(self).parameters),
            forall|a: Scalar, b: Scalar| #[trigger] call_requires(product, (a, b)),
        ensures
            old(self).parameters.validated(product, done),
            final(self).parameters == old(self).parameters,
            done is Err ==> *final(self) == *old(self),
            done is Ok ==> {
                &&& final(self).seed == seed
                &&& is_elevation(
                    kernel,
                    falloff_kernel,
                    seed,
                    old(self).parameters,
                    final(self).elevation,
                )
            },
    {
        match self.parameters.validate(product) {
            Err(fault) => Err(fault),
            Ok(()) => {
                self.seed = seed;
                self.elevation =
                Self::generate_elevation(seed, &self.parameters, kernel, falloff_kernel);
                Ok(())
            },
        }
    }

    fn generate_elevation<
        K: Fn(&NoiseParameters, Site, (u32, u32), OctaveState) -> OctaveState,
        F: Fn(&FalloffParameters, Site, Scalar, Scalar, Scalar) -> Scalar,
    >(seed: u64, parameters: &WorldParameters, kernel: &K, falloff_kernel: &F) -> (map: NoiseMap)
        requires
            parameters.checked() is Ok,
            kernels_cover(kernel, falloff_kernel, *parameters),
        ensures
            is_elevation(kernel, falloff_kernel, seed, *parameters, map),
    {
        match &parameters.falloff {
            Some(falloff) => NoiseMap::new_with_falloff(
                seed,
                parameters.width,
                parameters.height,
                &parameters.elevation_parameters,
                falloff,
                kernel,
                falloff_kernel,
            ),
            None => NoiseMap::new(
                seed,
                parameters.width,
                parameters.height,
                &parameters.elevation_parameters,
                kernel,
            ),
        }
    }

    /// Whether the cell at column `x` of row `y` lies below the sea level.
    pub fn is_sea(&self, x: usize, y: usize) -> (sea: bool)
        requires
            self.elevation.wf(),
            x < self.elevation.width,
            y < self.elevation.height,
        ensures
            sea == self.elevation.map@[index_of(
                x as int,
                y as int,
                self.elevation.width as int,
            )].below(self.parameters.sea_level),
    {
        self.elevation.get(x, y).lt(self.parameters.sea_level)
    }
}

} // verus!
