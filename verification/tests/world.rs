use realms::grid::Site;
use realms::noisemap::FalloffParameters;
use realms::noisemap::NoiseMap;
use realms::noisemap::NoiseParameters;
use realms::noisemap::OctaveState;
use realms::scalar::Scalar;
use realms::world::ParameterError;
use realms::world::World;
use realms::world::WorldParameters;

fn scalar(value: f64) -> Scalar {
    Scalar::from_bits(value.to_bits())
}

fn number(value: Scalar) -> f64 {
    f64::from_bits(value.to_bits())
}

/// A kernel without a noise source: each octave adds a share of its offset pair.
fn octave(parameters: &NoiseParameters, site: Site, offset: (u32, u32), state: OctaveState) -> OctaveState {
    let amplitude = number(state.amplitude);
    let sample = ((offset.0 as usize + site.x * 7 + site.y * 13) % 101) as f64 / 101.0
        - (offset.1 % 3) as f64 / 3.0;
    OctaveState {
        amplitude: scalar(amplitude * number(parameters.persistence)),
        frequency: scalar(number(state.frequency) * number(parameters.lacunarity)),
        value: scalar(number(state.value) + amplitude * sample),
    }
}

/// A falloff that lowers a cell by the share `multiplier` of the range, times its column.
fn lower(falloff: &FalloffParameters, site: Site, value: Scalar, min: Scalar, max: Scalar) -> Scalar {
    scalar(number(value) - (number(max) - number(min)) * number(falloff.multiplier) * site.x as f64)
}

fn product(a: Scalar, b: Scalar) -> Scalar {
    scalar(number(a) * number(b))
}

fn with_factors(persistence: f64, lacunarity: f64, octaves: usize) -> WorldParameters {
    let mut set = parameters(2, 2, octaves, None);
    set.elevation_parameters.persistence = scalar(persistence);
    set.elevation_parameters.lacunarity = scalar(lacunarity);
    set
}

fn parameters(width: usize, height: usize, octaves: usize, falloff: Option<FalloffParameters>) -> WorldParameters {
    WorldParameters {
        width,
        height,
        elevation_parameters: NoiseParameters {
            scale: scalar(0.2),
            octaves,
            persistence: scalar(0.5),
            lacunarity: scalar(2.0),
        },
        falloff,
        sea_level: scalar(0.0),
    }
}

fn falloff_with_midpoint(b: f64) -> FalloffParameters {
    FalloffParameters { a: scalar(2.0), b: scalar(b), multiplier: scalar(0.5) }
}

fn bits(map: &NoiseMap) -> Vec<u64> {
    map.map.iter().map(|value| value.to_bits()).collect()
}

fn fault(parameters: WorldParameters) -> ParameterError {
    assert_eq!(parameters.validate(&product), World::new(1, parameters, &octave, &lower, &product).map(|_| ()));
    match World::new(1, parameters, &octave, &lower, &product) {
        Ok(_) => panic!("the parameter set was accepted"),
        Err(fault) => fault,
    }
}

#[test]
fn a_world_binds_seed_parameters_and_field() {
    let set = parameters(6, 4, 3, None);
    let world = World::new(42, set, &octave, &lower, &product).unwrap();
    assert_eq!(world.seed, 42);
    assert_eq!(world.parameters.width, 6);
    assert_eq!(world.parameters.height, 4);
    assert_eq!(world.parameters.elevation_parameters.octaves, 3);
    assert!(world.parameters.falloff.is_none());
    assert_eq!(world.elevation.width, 6);
    assert_eq!(world.elevation.height, 4);
    assert_eq!(world.elevation.map.len(), 24);
}

#[test]
fn a_world_without_falloff_holds_the_raw_field() {
    let set = parameters(6, 4, 3, None);
    let world = World::new(42, set, &octave, &lower, &product).unwrap();
    let raw = NoiseMap::new(42, 6, 4, &set.elevation_parameters, &octave);
    assert_eq!(bits(&world.elevation), bits(&raw));
    assert_eq!(world.elevation.min.to_bits(), raw.min.to_bits());
    assert_eq!(world.elevation.max.to_bits(), raw.max.to_bits());
}

#[test]
fn a_world_with_falloff_holds_the_lowered_field() {
    let falloff = falloff_with_midpoint(6.0);
    let set = parameters(6, 4, 3, Some(falloff));
    let world = World::new(42, set, &octave, &lower, &product).unwrap();
    let raw = NoiseMap::new(42, 6, 4, &set.elevation_parameters, &octave);
    let lowered =
        NoiseMap::new_with_falloff(42, 6, 4, &set.elevation_parameters, &falloff, &octave, &lower);
    assert_eq!(bits(&world.elevation), bits(&lowered));
    assert_ne!(bits(&world.elevation), bits(&raw));
    assert_eq!(world.elevation.min.to_bits(), raw.min.to_bits());
    assert_eq!(world.elevation.max.to_bits(), raw.max.to_bits());
    let range = number(raw.max) - number(raw.min);
    for y in 0..4 {
        for x in 0..6 {
            assert_eq!(
                number(world.elevation.get(x, y)),
                number(raw.get(x, y)) - range * 0.5 * x as f64
            );
        }
    }
}

#[test]
fn a_grid_without_columns_is_refused() {
    assert_eq!(fault(parameters(0, 4, 3, None)), ParameterError::ZeroWidth);
    assert_eq!(fault(parameters(0, 0, 3, None)), ParameterError::ZeroWidth);
}

#[test]
fn a_grid_without_rows_is_refused() {
    assert_eq!(fault(parameters(4, 0, 3, None)), ParameterError::ZeroHeight);
}

#[test]
fn a_grid_beyond_the_index_range_is_refused() {
    assert_eq!(fault(parameters(usize::MAX, 2, 3, None)), ParameterError::TooManyCells);
    assert_eq!(fault(parameters(usize::MAX / 2 + 1, 2, 0, None)), ParameterError::TooManyCells);
}

#[test]
fn a_falloff_without_octaves_is_refused() {
    assert_eq!(
        fault(parameters(4, 4, 0, Some(falloff_with_midpoint(6.0)))),
        ParameterError::FalloffWithoutOctaves
    );
    assert_eq!(
        fault(parameters(4, 4, 0, Some(falloff_with_midpoint(-1.0)))),
        ParameterError::FalloffWithoutOctaves
    );
}

#[test]
fn a_negative_midpoint_is_refused() {
    for b in [-1.0, -1e-300, f64::NEG_INFINITY, f64::NAN, -f64::NAN] {
        assert_eq!(
            fault(parameters(4, 4, 2, Some(falloff_with_midpoint(b)))),
            ParameterError::NegativeMidpoint
        );
    }
}

#[test]
fn a_midpoint_of_zero_or_more_is_accepted() {
    for b in [0.0, -0.0, 1e-300, 6.0, f64::INFINITY] {
        let set = parameters(4, 4, 2, Some(falloff_with_midpoint(b)));
        assert_eq!(set.validate(&product), Ok(()));
        assert!(World::new(1, set, &octave, &lower, &product).is_ok());
    }
}

#[test]
fn a_world_without_octaves_and_without_falloff_is_flat() {
    let set = parameters(4, 4, 0, None);
    assert_eq!(set.validate(&product), Ok(()));
    let world = World::new(42, set, &octave, &lower, &product).unwrap();
    assert_eq!(bits(&world.elevation), vec![0u64; 16]);
    assert_eq!(world.elevation.min.to_bits(), 0);
    assert_eq!(world.elevation.max.to_bits(), 0);
}

#[test]
fn generate_replaces_seed_and_field() {
    let set = parameters(5, 5, 4, None);
    let mut world = World::new(1, set, &octave, &lower, &product).unwrap();
    let before = bits(&world.elevation);
    assert_eq!(world.generate(2, &octave, &lower, &product), Ok(()));
    assert_eq!(world.seed, 2);
    assert_ne!(bits(&world.elevation), before);
    let fresh = World::new(2, set, &octave, &lower, &product).unwrap();
    assert_eq!(bits(&world.elevation), bits(&fresh.elevation));
    assert_eq!(world.elevation.min.to_bits(), fresh.elevation.min.to_bits());
    assert_eq!(world.elevation.max.to_bits(), fresh.elevation.max.to_bits());
    assert_eq!(world.generate(1, &octave, &lower, &product), Ok(()));
    assert_eq!(bits(&world.elevation), before);
}

#[test]
fn generate_follows_the_parameters_as_they_stand() {
    let mut world = World::new(1, parameters(5, 5, 4, None), &octave, &lower, &product).unwrap();
    world.parameters.elevation_parameters.octaves = 2;
    world.parameters.width = 3;
    assert_eq!(world.generate(1, &octave, &lower, &product), Ok(()));
    let fresh = World::new(1, parameters(3, 5, 2, None), &octave, &lower, &product).unwrap();
    assert_eq!(world.elevation.width, 3);
    assert_eq!(world.elevation.map.len(), 15);
    assert_eq!(bits(&world.elevation), bits(&fresh.elevation));
}

#[test]
fn generate_leaves_the_world_where_the_parameters_are_at_fault() {
    let falloff = falloff_with_midpoint(6.0);
    let mut world = World::new(1, parameters(5, 5, 1, Some(falloff)), &octave, &lower, &product).unwrap();
    let before = bits(&world.elevation);
    world.parameters.elevation_parameters.octaves = 0;
    assert_eq!(world.generate(9, &octave, &lower, &product), Err(ParameterError::FalloffWithoutOctaves));
    assert_eq!(world.seed, 1);
    assert_eq!(bits(&world.elevation), before);
    assert_eq!(world.parameters.elevation_parameters.octaves, 0);
    world.parameters.elevation_parameters.octaves = 1;
    world.parameters.height = 0;
    assert_eq!(world.generate(9, &octave, &lower, &product), Err(ParameterError::ZeroHeight));
    assert_eq!(world.seed, 1);
    assert_eq!(bits(&world.elevation), before);
}

#[test]
fn a_cell_below_the_sea_level_is_sea() {
    let elevation = NoiseMap {
        map: vec![scalar(-1.0), scalar(0.25), scalar(0.5), scalar(0.75), scalar(f64::NAN), scalar(-0.0)],
        min: scalar(-1.0),
        max: scalar(0.75),
        width: 3,
        height: 2,
    };
    let mut set = parameters(3, 2, 1, None);
    set.sea_level = scalar(0.5);
    let mut world = World { seed: 0, parameters: set, elevation };
    assert!(world.is_sea(0, 0));
    assert!(world.is_sea(1, 0));
    assert!(!world.is_sea(2, 0));
    assert!(!world.is_sea(0, 1));
    assert!(!world.is_sea(1, 1));
    assert!(world.is_sea(2, 1));
    world.parameters.sea_level = scalar(0.0);
    assert!(world.is_sea(0, 0));
    assert!(!world.is_sea(1, 0));
    assert!(!world.is_sea(2, 1));
}

#[test]
fn every_fault_says_what_is_wrong() {
    assert_eq!(ParameterError::ZeroWidth.message(), "the world has no columns");
    assert_eq!(ParameterError::ZeroHeight.message(), "the world has no rows");
    assert_eq!(
        ParameterError::TooManyCells.message(),
        "the world has more cells than can be indexed"
    );
    assert_eq!(
        ParameterError::FalloffWithoutOctaves.message(),
        "a falloff needs at least one octave"
    );
    assert_eq!(
        ParameterError::NegativeMidpoint.message(),
        "the midpoint of the falloff is negative or no number"
    );
    assert_eq!(
        ParameterError::NonFiniteFactor.message(),
        "persistence or lacunarity is no finite number"
    );
    assert_eq!(
        ParameterError::NonFiniteGrowth.message(),
        "amplitude or frequency grows out of the finite numbers"
    );
}

#[test]
fn a_factor_that_is_no_finite_number_is_refused() {
    for factor in [f64::INFINITY, f64::NEG_INFINITY, f64::NAN, -f64::NAN] {
        for octaves in [0, 1, 3] {
            assert_eq!(fault(with_factors(factor, 2.0, octaves)), ParameterError::NonFiniteFactor);
            assert_eq!(fault(with_factors(0.5, factor, octaves)), ParameterError::NonFiniteFactor);
        }
    }
    assert_eq!(fault(with_factors(f64::MAX, f64::INFINITY, 3)), ParameterError::NonFiniteFactor);
}

#[test]
fn a_growth_out_of_the_finite_numbers_is_refused() {
    assert_eq!(fault(with_factors(f64::MAX, 2.0, 3)), ParameterError::NonFiniteGrowth);
    assert_eq!(fault(with_factors(f64::MAX, 2.0, 2)), ParameterError::NonFiniteGrowth);
    assert_eq!(fault(with_factors(f64::MIN, 2.0, 2)), ParameterError::NonFiniteGrowth);
    assert_eq!(fault(with_factors(0.5, 1e200, 2)), ParameterError::NonFiniteGrowth);
    assert_eq!(fault(with_factors(0.5, -1e200, 2)), ParameterError::NonFiniteGrowth);
    assert_eq!(fault(with_factors(0.5, 4.0, 512)), ParameterError::NonFiniteGrowth);
    assert_eq!(fault(with_factors(0.5, 2.0, 1024)), ParameterError::NonFiniteGrowth);
    assert_eq!(fault(with_factors(1e200, 1e200, 2)), ParameterError::NonFiniteGrowth);
}

#[test]
fn a_growth_that_stays_finite_is_accepted() {
    for set in [
        with_factors(f64::MAX, 2.0, 1),
        with_factors(f64::MAX, f64::MIN, 1),
        with_factors(f64::MAX, 1e300, 0),
        with_factors(0.5, 4.0, 511),
        with_factors(0.5, 2.0, 1023),
        with_factors(0.35, 4.0, 8),
        with_factors(1e-200, 1.0, 50),
        with_factors(0.0, -1.0, 50),
        with_factors(-0.0, 0.5, 5000),
    ] {
        assert_eq!(set.validate(&product), Ok(()));
        assert!(World::new(1, set, &octave, &lower, &product).is_ok());
    }
}

#[test]
fn the_growth_is_taken_by_the_product_kernel() {
    let doubling = |a: Scalar, _: Scalar| scalar(number(a) * 2.0);
    let set = with_factors(0.5, 0.5, 1024);
    assert_eq!(set.validate(&product), Ok(()));
    assert_eq!(set.validate(&doubling), Err(ParameterError::NonFiniteGrowth));
    let short = with_factors(0.5, 0.5, 1023);
    assert_eq!(short.validate(&doubling), Ok(()));
    let steady = |a: Scalar, _: Scalar| a;
    assert_eq!(with_factors(f64::MAX, f64::MAX, 9).validate(&steady), Ok(()));
}

#[test]
fn a_fault_on_the_face_comes_before_the_growth() {
    let mut set = with_factors(f64::MAX, 2.0, 3);
    set.falloff = Some(falloff_with_midpoint(-1.0));
    assert_eq!(fault(set), ParameterError::NegativeMidpoint);
    set.height = 0;
    assert_eq!(fault(set), ParameterError::ZeroHeight);
}

#[test]
fn generate_refuses_a_growth_out_of_the_finite_numbers() {
    let mut world = World::new(1, parameters(5, 5, 4, None), &octave, &lower, &product).unwrap();
    let before = bits(&world.elevation);
    world.parameters.elevation_parameters.lacunarity = scalar(1e100);
    assert_eq!(
        world.generate(9, &octave, &lower, &product),
        Err(ParameterError::NonFiniteGrowth)
    );
    assert_eq!(world.seed, 1);
    assert_eq!(bits(&world.elevation), before);
    world.parameters.elevation_parameters.lacunarity = scalar(f64::NAN);
    assert_eq!(
        world.generate(9, &octave, &lower, &product),
        Err(ParameterError::NonFiniteFactor)
    );
    assert_eq!(bits(&world.elevation), before);
}
