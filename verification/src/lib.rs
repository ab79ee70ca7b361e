//! Deterministic elevation fields for heightmap terrain.
//!
//! A world is generated from a 64-bit seed and a parameter set: the seed fixes the sampling
//! offsets of the octaves, the octaves of every cell of a grid are summed into a raw field
//! with its extremes, and an optional falloff lowers the field towards the rim, into the shape
//! of an island.
//!
//! The library holds no floating-point code. Real values are carried as the bit patterns of
//! doubles ([`scalar::Scalar`]), which the library can store, compare and hand on. What has to
//! be computed with them, one octave of noise, the falloff of one cell, a product, a ratio, a
//! sum or a channel of a colour, is computed by kernels that the caller passes in; every
//! contract says exactly what the kernels are called on and where their results go.
//!
//! [`world::World`] binds a seed and a parameter set to their field, [`noisemap::NoiseMap`] is
//! the field, [`offsets`] draws the offsets of a seed, and [`laws`] proves what holds of every
//! field. [`viewer::WorldViewer`] and [`editor`] hold the state of a viewer of a world: its
//! picture and its parameter editor.

pub mod editor;
pub mod grid;
pub mod laws;
pub mod noisemap;
pub mod offsets;
pub mod scalar;
pub mod viewer;
pub mod world;
