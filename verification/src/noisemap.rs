//! Fractal noise fields.
//!
//! A field is swept row by row. Each cell starts from amplitude 1, frequency 1 and value 0 and
//! runs through the octaves in order, octave `i` with offset pair `i` of the seed. The
//! arithmetic of one octave, with the noise source it samples, is the caller's: the octave
//! kernel. The library fixes what the kernel is called on, in which order, and where its
//! results go.

use crate::grid::cell_index;
use crate::grid::index_of;
use crate::grid::lemma_index_to_site;
use crate::grid::lemma_site_in_grid;
use crate::grid::site_at;
use crate::grid::Site;
use crate::laws::lemma_extremes_bound;
use crate::laws::lemma_no_octaves_is_flat;
use crate::offsets::octave_offsets;
use crate::offsets::octave_offsets_of;
use crate::scalar::Scalar;
use crate::scalar::INFINITY_BITS;
use crate::scalar::NEG_INFINITY_BITS;
use crate::scalar::ONE_BITS;
use vstd::prelude::*;

verus! {

/// How a field is sampled.
#[derive(Debug, Copy, Clone)]
pub struct NoiseParameters {
    /// Sampling frequency relative to the size of the grid.
    pub scale: Scalar,
    /// Number of noise layers.
    pub octaves: usize,
    /// Factor on the amplitude from one octave to the next.
    pub persistence: Scalar,
    /// Factor on the frequency from one octave to the next.
    pub lacunarity: Scalar,
}

impl PartialEq for NoiseParameters {
    fn eq(&self, other: &NoiseParameters) -> (r: bool) {
        self.scale == other.scale && self.octaves == other.octaves && self.persistence
            == other.persistence && self.lacunarity == other.lacunarity
    }
}

impl vstd::std_specs::cmp::PartialEqSpecImpl for NoiseParameters {
    open spec fn obeys_eq_spec() -> bool {
        true
    }

    open spec fn eq_spec(&self, other: &NoiseParameters) -> bool {
        self.scale.same(other.scale) && self.octaves == other.octaves && self.persistence.same(
            other.persistence,
        ) && self.lacunarity.same(other.lacunarity)
    }
}

/// The shape of the falloff curve and its strength.
#[derive(Debug, Copy, Clone)]
pub struct FalloffParameters {
    /// Steepness of the curve.
    pub a: Scalar,
    /// Midpoint of the curve.
    pub b: Scalar,
    /// How strongly the falloff lowers the elevation.
    pub multiplier: Scalar,
}

impl PartialEq for FalloffParameters {
    fn eq(&self, other: &FalloffParameters) -> (r: bool) {
        self.a == other.a && self.b == other.b && self.multiplier == other.multiplier
    }
}

impl vstd::std_specs::cmp::PartialEqSpecImpl for FalloffParameters {
    open spec fn obeys_eq_spec() -> bool {
        true
    }

    open spec fn eq_spec(&self, other: &FalloffParameters) -> bool {
        self.a.same(other.a) && self.b.same(other.b) && self.multiplier.same(other.multiplier)
    }
}

/// What a cell carries from one octave to the next.
#[derive(Debug, Copy, Clone)]
pub struct OctaveState {
    pub amplitude: Scalar,
    pub frequency: Scalar,
    pub value: Scalar,
}

/// A generated field with the extremes of its raw values.
pub struct NoiseMap {
    /// The values, row by row.
    pub map: Vec<Scalar>,
    /// The least raw value.
    pub min: Scalar,
    /// The greatest raw value.
    pub max: Scalar,
    /// The number of columns.
    pub width: usize,
    /// The number of rows.
    pub height: usize,
}

/// The state of a cell before its first octave: amplitude 1, frequency 1, value 0.
pub open spec fn first_state() -> OctaveState {
    OctaveState { amplitude: Scalar::one(), frequency: Scalar::one(), value: Scalar::zero() }
}

/// `states` is a run of the octaves of the cell at `site`: it starts in the first state, and
/// the kernel may lead from each state to the next on the offset pair of that octave.
pub open spec fn is_run<K: Fn(&NoiseParameters, Site, (u32, u32), OctaveState) -> OctaveState>(
    kernel: &K,
    parameters: &NoiseParameters,
    site: Site,
    offsets: Seq<(u32, u32)>,
    states: Seq<OctaveState>,
) -> bool {
    &&& states.len() == offsets.len() + 1
    &&& states[0] == first_state()
    &&& forall|i: int|
        0 <= i < offsets.len() ==> call_ensures(
            kernel,
            (parameters, site, #[trigger] offsets[i], states[i]),
            states[i + 1],
        )
}

/// `value` is a value that a run of all the octaves may give the cell at `site`.
pub open spec fn cell_value<K: Fn(&NoiseParameters, Site, (u32, u32), OctaveState) -> OctaveState>(
    kernel: &K,
    parameters: &NoiseParameters,
    site: Site,
    offsets: Seq<(u32, u32)>,
    value: Scalar,
) -> bool {
    exists|states: Seq<OctaveState>|
        #[trigger] is_run(kernel, parameters, site, offsets, states) && states.last().value
            == value
}

/// The kernel accepts every cell of the grid, whatever the offset pair and the state.
pub open spec fn kernel_covers<K: Fn(&NoiseParameters, Site, (u32, u32), OctaveState) -> OctaveState>(
    kernel: &K,
    parameters: &NoiseParameters,
    width: usize,
    height: usize,
) -> bool {
    forall|site: Site, offset: (u32, u32), state: OctaveState|
        site.x < width && site.y < height && site.width == width && site.height == height
            ==> #[trigger] call_requires(kernel, (parameters, site, offset, state))
}

/// `values` is a raw field of the seed: one value per cell, in row-major order, each a value
/// that the octaves of the seed's offsets may give its cell.
pub open spec fn is_field<K: Fn(&NoiseParameters, Site, (u32, u32), OctaveState) -> OctaveState>(
    kernel: &K,
    parameters: &NoiseParameters,
    seed: u64,
    width: usize,
    height: usize,
    values: Seq<Scalar>,
) -> bool {
    &&& values.len() == width * height
    &&& forall|i: int|
        0 <= i < values.len() ==> cell_value(
            kernel,
            parameters,
            site_at(i, width, height),
            octave_offsets_of(seed, parameters.octaves as nat),
            #[trigger] values[i],
        )
}

/// The running minimum of a sweep: it starts at positive infinity and moves to each value
/// that is below it.
pub open spec fn lowest(values: Seq<Scalar>) -> Scalar
    decreases values.len(),
{
    if values.len() == 0 {
        Scalar::infinity()
    } else {
        let rest = lowest(values.drop_last());
        if values.last().below(rest) {
            values.last()
        } else {
            rest
        }
    }
}

/// The running maximum of a sweep: it starts at negative infinity and moves to each value
/// that is above it.
pub open spec fn highest(values: Seq<Scalar>) -> Scalar
    decreases values.len(),
{
    if values.len() == 0 {
        Scalar::neg_infinity()
    } else {
        let rest = highest(values.drop_last());
        if rest.below(values.last()) {
            values.last()
        } else {
            rest
        }
    }
}

/// The falloff kernel accepts every cell of the grid, whatever its value and the extremes.
pub open spec fn falloff_covers<F: Fn(&FalloffParameters, Site, Scalar, Scalar, Scalar) -> Scalar>(
    kernel: &F,
    falloff: &FalloffParameters,
    width: usize,
    height: usize,
) -> bool {
    forall|site: Site, value: Scalar, min: Scalar, max: Scalar|
        site.x < width && site.y < height && site.width == width && site.height == height
            ==> #[trigger] call_requires(kernel, (falloff, site, value, min, max))
}

/// `values` is what the falloff kernel may make of the cells of `raw`, each cell lowered on
/// its own value and on the extremes `min` and `max`.
pub open spec fn is_lowered<F: Fn(&FalloffParameters, Site, Scalar, Scalar, Scalar) -> Scalar>(
    kernel: &F,
    falloff: &FalloffParameters,
    width: usize,
    height: usize,
    raw: Seq<Scalar>,
    min: Scalar,
    max: Scalar,
    values: Seq<Scalar>,
) -> bool {
    &&& values.len() == raw.len()
    &&& forall|i: int|
        0 <= i < values.len() ==> call_ensures(
            kernel,
            (falloff, site_at(i, width, height), raw[i], min, max),
            #[trigger] values[i],
        )
}

/// `map` is the raw field `raw` of the seed after the falloff: its extremes are those of
/// `raw`, its values are the lowered values of `raw`.
pub open spec fn is_raw_of<
    K: Fn(&NoiseParameters, Site, (u32, u32), OctaveState) -> OctaveState,
    F: Fn(&FalloffParameters, Site, Scalar, Scalar, Scalar) -> Scalar,
>(
    kernel: &K,
    falloff_kernel: &F,
    parameters: &NoiseParameters,
    falloff: &FalloffParameters,
    seed: u64,
    width: usize,
    height: usize,
    map: NoiseMap,
    raw: Seq<Scalar>,
) -> bool {
    &&& is_field(kernel, parameters, seed, width, height, raw)
    &&& map.min == lowest(raw)
    &&& map.max == highest(raw)
    &&& is_lowered(falloff_kernel, falloff, width, height, raw, map.min, map.max, map.map@)
}

/// `map` is a field of the seed with the falloff applied: some raw field of the seed gives it.
pub open spec fn is_field_with_falloff<
    K: Fn(&NoiseParameters, Site, (u32, u32), OctaveState) -> OctaveState,
    F: Fn(&FalloffParameters, Site, Scalar, Scalar, Scalar) -> Scalar,
>(
    kernel: &K,
    falloff_kernel: &F,
    parameters: &NoiseParameters,
    falloff: &FalloffParameters,
    seed: u64,
    width: usize,
    height: usize,
    map: NoiseMap,
) -> bool {
    exists|raw: Seq<Scalar>|
        #[trigger] is_raw_of(
            kernel,
            falloff_kernel,
            parameters,
            falloff,
            seed,
            width,
            height,
            map,
            raw,
        )
}

/// Runs the octaves of one cell.
pub fn sample_cell<K: Fn(&NoiseParameters, Site, (u32, u32), OctaveState) -> OctaveState>(
    kernel: &K,
    parameters: &NoiseParameters,
    site: Site,
    offsets: &Vec<(u32, u32)>,
) -> (value: Scalar)
    requires
        forall|offset: (u32, u32), state: OctaveState| #[trigger]
            call_requires(kernel, (parameters, site, offset, state)),
    ensures
        cell_value(kernel, parameters, site, offsets@, value),
{
    let mut state = OctaveState {
        amplitude: Scalar::from_bits(ONE_BITS),
        frequency: Scalar::from_bits(ONE_BITS),
        value: Scalar::from_bits(0),
    };
    let ghost mut states: Seq<OctaveState> = seq![state];
    let mut i: usize = 0;
    while i < offsets.len()
        invariant
            i <= offsets@.len(),
            states.len() == i + 1,
            states[0] == first_state(),
            states.last() == state,
            forall|j: int|
                0 <= j < i ==> call_ensures(
                    kernel,
                    (parameters, site, #[trigger] offsets@[j], states[j]),
                    states[j + 1],
                ),
            forall|offset: (u32, u32), s: OctaveState| #[trigger]
                call_requires(kernel, (parameters, site, offset, s)),
        decreases offsets@.len() - i,
    {
        state = kernel(parameters, site, offsets[i], state);
        proof {
            states = states.push(state);
        }
        i += 1;
    }
    assert(is_run(kernel, parameters, site, offsets@, states));
    state.value
}

impl NoiseMap {
    /// The map holds one value per cell.
    pub open spec fn wf(&self) -> bool {
        self.map.len() == self.width * self.height
    }

    /// Builds the raw field of a seed.
    pub fn new<K: Fn(&NoiseParameters, Site, (u32, u32), OctaveState) -> OctaveState>(
        seed: u64,
        width: usize,
        height: usize,
        parameters: &NoiseParameters,
        kernel: &K,
    ) -> (map: NoiseMap)
        requires
            width * height <= usize::MAX,
            kernel_covers(kernel, parameters, width, height),
        ensures
            map.wf(),
            map.width == width,
            map.height == height,
            is_field(kernel, parameters, seed, width, height, map.map@),
            map.min == lowest(map.map@),
            map.max == highest(map.map@),
            forall|i: int|
                0 <= i < map.map@.len() && !(#[trigger] map.map@[i]).nan() ==> map.min.at_most(
                    map.map@[i],
                ) && map.map@[i].at_most(map.max),
            parameters.octaves == 0 ==> !map.has_range() && forall|i: int|
                0 <= i < map.map@.len() ==> #[trigger] map.map@[i] == Scalar::zero(),
            parameters.octaves == 0 && width * height > 0 ==> map.min == Scalar::zero() && map.max
                == Scalar::zero(),
    {
        let offsets = octave_offsets(seed, parameters.octaves);
        let mut map: Vec<Scalar> = Vec::with_capacity(width * height);
        let mut min = Scalar::from_bits(INFINITY_BITS);
        let mut max = Scalar::from_bits(NEG_INFINITY_BITS);
        let mut y: usize = 0;
        while y < height
            invariant
                y <= height,
                width * height <= usize::MAX,
                offsets@ == octave_offsets_of(seed, parameters.octaves as nat),
                kernel_covers(kernel, parameters, width, height),
                map@.len() == index_of(0, y as int, width as int),
                min == lowest(map@),
                max == highest(map@),
                forall|i: int|
                    0 <= i < map@.len() ==> cell_value(
                        kernel,
                        parameters,
                        site_at(i, width, height),
                        offsets@,
                        #[trigger] map@[i],
                    ),
            decreases height - y,
        {
            let mut x: usize = 0;
            while x < width
                invariant
                    x <= width,
                    y < height,
                    width * height <= usize::MAX,
                    offsets@ == octave_offsets_of(seed, parameters.octaves as nat),
                    kernel_covers(kernel, parameters, width, height),
                    map@.len() == index_of(x as int, y as int, width as int),
                    min == lowest(map@),
                    max == highest(map@),
                    forall|i: int|
                        0 <= i < map@.len() ==> cell_value(
                            kernel,
                            parameters,
                            site_at(i, width, height),
                            offsets@,
                            #[trigger] map@[i],
                        ),
                decreases width - x,
            {
                let site = Site { x, y, width, height };
                let value = sample_cell(kernel, parameters, site, &offsets);
                proof {
                    lemma_index_to_site(x as int, y as int, width as int);
                    assert(site == site_at(map@.len() as int, width, height));
                    assert(map@.push(value).drop_last() =~= map@);
                }
                if value.lt(min) {
                    min = value;
                }
                if value.gt(max) {
                    max = value;
                }
                map.push(value);
                x += 1;
            }
            proof {
                assert(index_of(width as int, y as int, width as int) == index_of(
                    0,
                    y + 1,
                    width as int,
                )) by (nonlinear_arith);
            }
            y += 1;
        }
        proof {
            assert(index_of(0, height as int, width as int) == width * height) by (nonlinear_arith);
            lemma_extremes_bound(map@);
            if parameters.octaves == 0 {
                lemma_no_octaves_is_flat(kernel, parameters, seed, width, height, map@);
            }
        }
        NoiseMap { map, min, max, width, height }
    }

    /// The extremes span a range: the least raw value is below the greatest.
    pub open spec fn has_range(&self) -> bool {
        self.min.below(self.max)
    }

    /// The value of the cell at column `x` of row `y`.
    pub fn get(&self, x: usize, y: usize) -> (value: Scalar)
        requires
            self.wf(),
            x < self.width,
            y < self.height,
        ensures
            value == self.map@[index_of(x as int, y as int, self.width as int)],
    {
        self.map[cell_index(x, y, self.width, self.height)]
    }

    /// Where `value` lies between the extremes, as `inverse_lerp` computes it from the least
    /// raw value, the greatest and `value`; `None` where the extremes span no range, so that
    /// the position is undefined.
    pub fn normalize<L: Fn(Scalar, Scalar, Scalar) -> Scalar>(
        &self,
        value: Scalar,
        inverse_lerp: &L,
    ) -> (position: Option<Scalar>)
        requires
            self.has_range() ==> call_requires(inverse_lerp, (self.min, self.max, value)),
        ensures
            position is Some <==> self.has_range(),
            position is Some ==> call_ensures(
                inverse_lerp,
                (self.min, self.max, value),
                position->Some_0,
            ),
    {
        if self.min.lt(self.max) {
            Some(inverse_lerp(self.min, self.max, value))
        } else {
            None
        }
    }

    /// Where the value of the cell at column `x` of row `y` lies between the extremes.
    pub fn get_normalized<L: Fn(Scalar, Scalar, Scalar) -> Scalar>(
        &self,
        x: usize,
        y: usize,
        inverse_lerp: &L,
    ) -> (position: Option<Scalar>)
        requires
            self.wf(),
            x < self.width,
            y < self.height,
            self.has_range() ==> call_requires(
                inverse_lerp,
                (self.min, self.max, self.map@[index_of(x as int, y as int, self.width as int)]),
            ),
        ensures
            position is Some <==> self.has_range(),
            position is Some ==> call_ensures(
                inverse_lerp,
                (self.min, self.max, self.map@[index_of(x as int, y as int, self.width as int)]),
                position->Some_0,
            ),
    {
        self.normalize(self.map[cell_index(x, y, self.width, self.height)], inverse_lerp)
    }

    /// Lowers every cell by the falloff kernel, which is given the cell, its value and the
    /// extremes. The extremes stay those of the raw field. The midpoint of the curve must be a
    /// number that is not negative: the curve raises a multiple of it to a power.
    pub fn apply_falloff<F: Fn(&FalloffParameters, Site, Scalar, Scalar, Scalar) -> Scalar>(
        &mut self,
        falloff: &FalloffParameters,
        kernel: &F,
    )
        requires
            old(self).wf(),
            Scalar::zero().at_most(falloff.b),
            forall|i: int|
                0 <= i < old(self).map@.len() ==> call_requires(
                    kernel,
                    (
                        falloff,
                        site_at(i, old(self).width, old(self).height),
                        #[trigger] old(self).map@[i],
                        old(self).min,
                        old(self).max,
                    ),
                ),
        ensures
            final(self).wf(),
            final(self).width == old(self).width,
            final(self).height == old(self).height,
            final(self).min == old(self).min,
            final(self).max == old(self).max,
            is_lowered(
                kernel,
                falloff,
                old(self).width,
                old(self).height,
                old(self).map@,
                old(self).min,
                old(self).max,
                final(self).map@,
            ),
    {
        let width = self.width;
        let height = self.height;
        let min = self.min;
        let max = self.max;
        let mut y: usize = 0;
        while y < height
            invariant
                y <= height,
                width == old(self).width,
                height == old(self).height,
                min == old(self).min,
                max == old(self).max,
                self.width == width,
                self.height == height,
                self.min == min,
                self.max == max,
                old(self).wf(),
                self.map@.len() == old(self).map@.len(),
                forall|i: int|
                    0 <= i < old(self).map@.len() ==> call_requires(
                        kernel,
                        (falloff, site_at(i, width, height), #[trigger] old(self).map@[i], min, max),
                    ),
                forall|i: int|
                    0 <= i < index_of(0, y as int, width as int) && i < self.map@.len()
                        ==> call_ensures(
                        kernel,
                        (falloff, site_at(i, width, height), old(self).map@[i], min, max),
                        #[trigger] self.map@[i],
                    ),
                forall|i: int|
                    index_of(0, y as int, width as int) <= i < self.map@.len()
                        ==> #[trigger] self.map@[i] == old(self).map@[i],
            decreases height - y,
        {
            let mut x: usize = 0;
            while x < width
                invariant
                    x <= width,
                    y < height,
                    width == old(self).width,
                    height == old(self).height,
                    min == old(self).min,
                    max == old(self).max,
                    self.width == width,
                    self.height == height,
                    self.min == min,
                    self.max == max,
                    old(self).wf(),
                    self.map@.len() == old(self).map@.len(),
                    forall|i: int|
                        0 <= i < old(self).map@.len() ==> call_requires(
                            kernel,
                            (
                                falloff,
                                site_at(i, width, height),
                                #[trigger] old(self).map@[i],
                                min,
                                max,
                            ),
                        ),
                    forall|i: int|
                        0 <= i < index_of(x as int, y as int, width as int) && i < self.map@.len()
                            ==> call_ensures(
                            kernel,
                            (falloff, site_at(i, width, height), old(self).map@[i], min, max),
                            #[trigger] self.map@[i],
                        ),
                    forall|i: int|
                        index_of(x as int, y as int, width as int) <= i < self.map@.len()
                            ==> #[trigger] self.map@[i] == old(self).map@[i],
                decreases width - x,
            {
                let index = cell_index(x, y, width, height);
                proof {
                    lemma_index_to_site(x as int, y as int, width as int);
                }
                let site = Site { x, y, width, height };
                let lowered = kernel(falloff, site, self.map[index], min, max);
                self.map.set(index, lowered);
                x += 1;
            }
            proof {
                assert(index_of(width as int, y as int, width as int) == index_of(
                    0,
                    y + 1,
                    width as int,
                )) by (nonlinear_arith);
            }
            y += 1;
        }
        proof {
            assert(index_of(0, height as int, width as int) == width * height) by (nonlinear_arith);
        }
    }

    /// Builds the raw field of a seed and lowers it by the falloff kernel. The midpoint of the
    /// curve must be a number that is not negative.
    pub fn new_with_falloff<
        K: Fn(&NoiseParameters, Site, (u32, u32), OctaveState) -> OctaveState,
        F: Fn(&FalloffParameters, Site, Scalar, Scalar, Scalar) -> Scalar,
    >(
        seed: u64,
        width: usize,
        height: usize,
        parameters: &NoiseParameters,
        falloff: &FalloffParameters,
        kernel: &K,
        falloff_kernel: &F,
    ) -> (map: NoiseMap)
        requires
            width * height <= usize::MAX,
            Scalar::zero().at_most(falloff.b),
            kernel_covers(kernel, parameters, width, height),
            falloff_covers(falloff_kernel, falloff, width, height),
        ensures
            map.wf(),
            map.width == width,
            map.height == height,
            is_field_with_falloff(
                kernel,
                falloff_kernel,
                parameters,
                falloff,
                seed,
                width,
                height,
                map,
            ),
    {
        let mut map = NoiseMap::new(seed, width, height, parameters, kernel);
        let ghost raw = map;
        proof {
            assert forall|i: int| 0 <= i < raw.map@.len() implies call_requires(
                falloff_kernel,
                (falloff, site_at(i, width, height), #[trigger] raw.map@[i], raw.min, raw.max),
            ) by {
                lemma_site_in_grid(i, width as int, height as int);
            }
        }
        map.apply_falloff(falloff, falloff_kernel);
        proof {
            assert(is_raw_of(
                kernel,
                falloff_kernel,
                parameters,
                falloff,
                seed,
                width,
                height,
                map,
                raw.map@,
            ));
        }
        map
    }
}

} // verus!
