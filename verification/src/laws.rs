//! What holds of every field: its cells lie where their column and row say, its extremes
//! bound its raw values, a seed fixes it, and without octaves it is flat. And what holds of
//! every parameter set: it has one verdict.

use crate::grid::index_of;
use crate::grid::lemma_index_in_range;
use crate::grid::lemma_index_to_site;
use crate::grid::site_at;
use crate::grid::Site;
use crate::noisemap::cell_value;
use crate::noisemap::first_state;
use crate::noisemap::highest;
use crate::noisemap::is_field;
use crate::noisemap::is_raw_of;
use crate::noisemap::is_run;
use crate::noisemap::lowest;
use crate::noisemap::FalloffParameters;
use crate::noisemap::NoiseMap;
use crate::noisemap::NoiseParameters;
use crate::noisemap::OctaveState;
use crate::offsets::octave_offsets_of;
use crate::scalar::Scalar;
use crate::world::is_elevation;
use crate::world::is_growth;
use crate::world::leaves_finite;
use crate::world::stays_finite;
use crate::world::ParameterError;
use crate::world::WorldParameters;
use vstd::prelude::*;

verus! {

/// The cell at column `x` of row `y` of a raw field holds a value that the octaves may give
/// that cell.
pub proof fn lemma_field_at<K: Fn(&NoiseParameters, Site, (u32, u32), OctaveState) -> OctaveState>(
    kernel: &K,
    parameters: &NoiseParameters,
    seed: u64,
    width: usize,
    height: usize,
    values: Seq<Scalar>,
    x: usize,
    y: usize,
)
    requires
        is_field(kernel, parameters, seed, width, height, values),
        x < width,
        y < height,
    ensures
        0 <= index_of(x as int, y as int, width as int) < values.len(),
        cell_value(
            kernel,
            parameters,
            Site { x, y, width, height },
            octave_offsets_of(seed, parameters.octaves as nat),
            values[index_of(x as int, y as int, width as int)],
        ),
{
    lemma_index_in_range(x as int, y as int, width as int, height as int);
    lemma_index_to_site(x as int, y as int, width as int);
}

/// The extremes of a sweep are numbers, each is a value of the sweep unless it still is the
/// infinity it started at, and every value that is a number lies between them.
pub proof fn lemma_extremes_bound(values: Seq<Scalar>)
    ensures
        !lowest(values).nan(),
        !highest(values).nan(),
        lowest(values) == Scalar::infinity() || values.contains(lowest(values)),
        highest(values) == Scalar::neg_infinity() || values.contains(highest(values)),
        forall|i: int|
            0 <= i < values.len() && !(#[trigger] values[i]).nan() ==> lowest(values).at_most(
                values[i],
            ) && values[i].at_most(highest(values)),
    decreases values.len(),
{
    if values.len() > 0 {
        let front = values.drop_last();
        lemma_extremes_bound(front);
        assert forall|i: int| 0 <= i < values.len() && !(#[trigger] values[i]).nan() implies lowest(
            values,
        ).at_most(values[i]) && values[i].at_most(highest(values)) by {
            if i < front.len() {
                assert(front[i] == values[i]);
            }
        }
        if front.contains(lowest(front)) {
            let k = choose|k: int| 0 <= k < front.len() && front[k] == lowest(front);
            assert(values[k] == lowest(front));
        }
        if front.contains(highest(front)) {
            let k = choose|k: int| 0 <= k < front.len() && front[k] == highest(front);
            assert(values[k] == highest(front));
        }
        assert(values[values.len() - 1] == values.last());
    }
}

/// The octave kernel computes: on one input it gives one result.
pub open spec fn kernel_is_function<K: Fn(&NoiseParameters, Site, (u32, u32), OctaveState) -> OctaveState>(
    kernel: &K,
    parameters: &NoiseParameters,
) -> bool {
    forall|site: Site, offset: (u32, u32), state: OctaveState, a: OctaveState, b: OctaveState|
        #![trigger
            call_ensures(kernel, (parameters, site, offset, state), a),
            call_ensures(kernel, (parameters, site, offset, state), b)
        ]
        call_ensures(kernel, (parameters, site, offset, state), a) && call_ensures(
            kernel,
            (parameters, site, offset, state),
            b,
        ) ==> a == b
}

/// The falloff kernel computes: on one input it gives one result.
pub open spec fn falloff_is_function<F: Fn(&FalloffParameters, Site, Scalar, Scalar, Scalar) -> Scalar>(
    kernel: &F,
    falloff: &FalloffParameters,
) -> bool {
    forall|site: Site, value: Scalar, min: Scalar, max: Scalar, a: Scalar, b: Scalar|
        #![trigger
            call_ensures(kernel, (falloff, site, value, min, max), a),
            call_ensures(kernel, (falloff, site, value, min, max), b)
        ]
        call_ensures(kernel, (falloff, site, value, min, max), a) && call_ensures(
            kernel,
            (falloff, site, value, min, max),
            b,
        ) ==> a == b
}

/// Two runs of the octaves of one cell pass through the same states.
proof fn lemma_runs_agree<K: Fn(&NoiseParameters, Site, (u32, u32), OctaveState) -> OctaveState>(
    kernel: &K,
    parameters: &NoiseParameters,
    site: Site,
    offsets: Seq<(u32, u32)>,
    first: Seq<OctaveState>,
    second: Seq<OctaveState>,
    upto: nat,
)
    requires
        kernel_is_function(kernel, parameters),
        is_run(kernel, parameters, site, offsets, first),
        is_run(kernel, parameters, site, offsets, second),
        upto <= offsets.len(),
    ensures
        first[upto as int] == second[upto as int],
    decreases upto,
{
    if upto > 0 {
        let i = upto - 1;
        lemma_runs_agree(kernel, parameters, site, offsets, first, second, i as nat);
        let offset = offsets[i];
        assert(call_ensures(kernel, (parameters, site, offset, first[i]), first[i + 1]));
        assert(call_ensures(kernel, (parameters, site, offset, second[i]), second[i + 1]));
    }
}

/// A seed fixes its raw field: with a kernel that computes, two raw fields of one seed, one
/// size and one parameter set hold the same values, and so have the same extremes.
pub proof fn lemma_field_is_fixed<K: Fn(&NoiseParameters, Site, (u32, u32), OctaveState) -> OctaveState>(
    kernel: &K,
    parameters: &NoiseParameters,
    seed: u64,
    width: usize,
    height: usize,
    first: Seq<Scalar>,
    second: Seq<Scalar>,
)
    requires
        kernel_is_function(kernel, parameters),
        is_field(kernel, parameters, seed, width, height, first),
        is_field(kernel, parameters, seed, width, height, second),
    ensures
        first == second,
        lowest(first) == lowest(second),
        highest(first) == highest(second),
{
    let offsets = octave_offsets_of(seed, parameters.octaves as nat);
    assert forall|i: int| 0 <= i < first.len() implies first[i] == second[i] by {
        let site = site_at(i, width, height);
        assert(cell_value(kernel, parameters, site, offsets, first[i]));
        assert(cell_value(kernel, parameters, site, offsets, second[i]));
        let run_a = choose|states: Seq<OctaveState>|
            #[trigger] is_run(kernel, parameters, site, offsets, states) && states.last().value
                == first[i];
        let run_b = choose|states: Seq<OctaveState>|
            #[trigger] is_run(kernel, parameters, site, offsets, states) && states.last().value
                == second[i];
        lemma_runs_agree(kernel, parameters, site, offsets, run_a, run_b, offsets.len());
    }
    assert(first =~= second);
}

/// A seed fixes its elevation field: with kernels that compute, two elevation fields of one
/// seed and one parameter set hold the same values and have the same extremes.
pub proof fn lemma_elevation_is_fixed<
    K: Fn(&NoiseParameters, Site, (u32, u32), OctaveState) -> OctaveState,
    F: Fn(&FalloffParameters, Site, Scalar, Scalar, Scalar) -> Scalar,
>(
    kernel: &K,
    falloff_kernel: &F,
    seed: u64,
    parameters: WorldParameters,
    first: NoiseMap,
    second: NoiseMap,
)
    requires
        kernel_is_function(kernel, &parameters.elevation_parameters),
        parameters.falloff is Some ==> falloff_is_function(
            falloff_kernel,
            &parameters.falloff->Some_0,
        ),
        is_elevation(kernel, falloff_kernel, seed, parameters, first),
        is_elevation(kernel, falloff_kernel, seed, parameters, second),
    ensures
        first.map@ == second.map@,
        first.min == second.min,
        first.max == second.max,
        first.width == second.width,
        first.height == second.height,
{
    let noise = &parameters.elevation_parameters;
    let width = parameters.width;
    let height = parameters.height;
    match parameters.falloff {
        None => {
            lemma_field_is_fixed(kernel, noise, seed, width, height, first.map@, second.map@);
        },
        Some(falloff) => {
            let raw_a = choose|raw: Seq<Scalar>| #[trigger]
                is_raw_of(kernel, falloff_kernel, noise, &falloff, seed, width, height, first, raw);
            let raw_b = choose|raw: Seq<Scalar>| #[trigger]
                is_raw_of(kernel, falloff_kernel, noise, &falloff, seed, width, height, second, raw);
            lemma_field_is_fixed(kernel, noise, seed, width, height, raw_a, raw_b);
            assert forall|i: int| 0 <= i < first.map@.len() implies first.map@[i]
                == second.map@[i] by {
                let site = site_at(i, width, height);
                assert(call_ensures(
                    falloff_kernel,
                    (&falloff, site, raw_a[i], first.min, first.max),
                    first.map@[i],
                ));
                assert(call_ensures(
                    falloff_kernel,
                    (&falloff, site, raw_b[i], second.min, second.max),
                    second.map@[i],
                ));
            }
            assert(first.map@ =~= second.map@);
        },
    }
}

/// A sweep of zeros has zero for both extremes.
proof fn lemma_zeros_extremes(values: Seq<Scalar>)
    requires
        values.len() > 0,
        forall|i: int| 0 <= i < values.len() ==> values[i] == Scalar::zero(),
    ensures
        lowest(values) == Scalar::zero(),
        highest(values) == Scalar::zero(),
    decreases values.len(),
{
    let front = values.drop_last();
    assert(values.last() == values[values.len() - 1]);
    if front.len() > 0 {
        assert forall|i: int| 0 <= i < front.len() implies front[i] == Scalar::zero() by {
            assert(front[i] == values[i]);
        }
        lemma_zeros_extremes(front);
    } else {
        assert(lowest(front) == Scalar::infinity());
        assert(highest(front) == Scalar::neg_infinity());
    }
}

/// A field without octaves is flat: every cell keeps the value 0 that it starts from, both
/// extremes are 0 where the grid has a cell, and the extremes span no range.
pub proof fn lemma_no_octaves_is_flat<K: Fn(&NoiseParameters, Site, (u32, u32), OctaveState) -> OctaveState>(
    kernel: &K,
    parameters: &NoiseParameters,
    seed: u64,
    width: usize,
    height: usize,
    values: Seq<Scalar>,
)
    requires
        parameters.octaves == 0,
        is_field(kernel, parameters, seed, width, height, values),
    ensures
        forall|i: int| 0 <= i < values.len() ==> values[i] == Scalar::zero(),
        values.len() > 0 ==> lowest(values) == Scalar::zero() && highest(values) == Scalar::zero(),
        !lowest(values).below(highest(values)),
{
    let offsets = octave_offsets_of(seed, 0);
    assert forall|i: int| 0 <= i < values.len() implies values[i] == Scalar::zero() by {
        let site = site_at(i, width, height);
        assert(cell_value(kernel, parameters, site, offsets, values[i]));
        let run = choose|states: Seq<OctaveState>|
            #[trigger] is_run(kernel, parameters, site, offsets, states) && states.last().value
                == values[i];
        assert(run.last() == run[0]);
        assert(run[0] == first_state());
    }
    if values.len() > 0 {
        lemma_zeros_extremes(values);
    }
}

/// The product kernel computes: on one input it gives one result.
pub open spec fn product_is_function<P: Fn(Scalar, Scalar) -> Scalar>(product: &P) -> bool {
    forall|a: Scalar, b: Scalar, first: Scalar, second: Scalar|
        #![trigger call_ensures(product, (a, b), first), call_ensures(product, (a, b), second)]
        call_ensures(product, (a, b), first) && call_ensures(product, (a, b), second) ==> first
            == second
}

/// Two runs of the products of one factor agree as far as both go.
proof fn lemma_growths_agree<P: Fn(Scalar, Scalar) -> Scalar>(
    product: &P,
    factor: Scalar,
    first: Seq<Scalar>,
    second: Seq<Scalar>,
    upto: nat,
)
    requires
        product_is_function(product),
        is_growth(product, factor, first),
        is_growth(product, factor, second),
        upto < first.len(),
        upto < second.len(),
    ensures
        first[upto as int] == second[upto as int],
    decreases upto,
{
    if upto > 0 {
        let i = upto - 1;
        lemma_growths_agree(product, factor, first, second, i as nat);
        assert(call_ensures(product, (first[i], factor), first[i + 1]));
        assert(call_ensures(product, (second[i], factor), second[i + 1]));
    }
}

/// A product kernel that computes decides the growth of a factor: its products over the
/// octaves either all stay finite or leave the finite numbers, never both. So a parameter set
/// has one verdict, and a world is generated exactly where the verdict is to accept.
pub proof fn lemma_growth_is_decided<P: Fn(Scalar, Scalar) -> Scalar>(
    product: &P,
    factor: Scalar,
    octaves: usize,
)
    requires
        product_is_function(product),
    ensures
        !(stays_finite(product, factor, octaves) && leaves_finite(product, factor, octaves)),
{
    if stays_finite(product, factor, octaves) && leaves_finite(product, factor, octaves) {
        let all = choose|powers: Seq<Scalar>|
            {
                &&& #[trigger] is_growth(product, factor, powers)
                &&& powers.len() == octaves + 1
                &&& forall|i: int| 0 <= i < powers.len() ==> (#[trigger] powers[i]).finite()
            };
        let some = choose|powers: Seq<Scalar>|
            {
                &&& #[trigger] is_growth(product, factor, powers)
                &&& powers.len() <= octaves + 1
                &&& !powers.last().finite()
            };
        let last = some.len() - 1;
        lemma_growths_agree(product, factor, all, some, last as nat);
        assert(all[last].finite());
    }
}

/// With a product kernel that computes, a parameter set has one verdict.
pub proof fn lemma_verdict_is_one<P: Fn(Scalar, Scalar) -> Scalar>(
    product: &P,
    parameters: WorldParameters,
    first: Result<(), ParameterError>,
    second: Result<(), ParameterError>,
)
    requires
        product_is_function(product),
        parameters.validated(product, first),
        parameters.validated(product, second),
    ensures
        first == second,
{
    let noise = parameters.elevation_parameters;
    lemma_growth_is_decided(product, noise.persistence, noise.octaves);
    lemma_growth_is_decided(product, noise.lacunarity, noise.octaves);
    if parameters.checked() is Ok {
        assert(first is Ok <==> second is Ok);
        if first is Ok {
            assert(first->Ok_0 == second->Ok_0);
        } else {
            assert(first->Err_0 == second->Err_0);
        }
    }
}

} // verus!
