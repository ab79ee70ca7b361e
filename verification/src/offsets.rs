//! The sampling offsets of the octaves, drawn from a seeded generator.
//!
//! The generator is `rand`'s `StdRng`, seeded by `seed_from_u64`. It is deterministic: the seed
//! fixes the whole stream of words that a build of the library yields. Which algorithm stands
//! behind `StdRng` is `rand`'s choice for its version and the target (ChaCha with 20 rounds in
//! `rand` 0.7 on every target but Emscripten), so the stream of a seed is the same on every run
//! of one build, and need not be the same for another version of `rand`. The library takes two
//! words per octave, in octave order.
//!
//! A viewer that is asked for a new world takes its seed from `rand`'s generator of the thread;
//! of such a seed nothing is known.

use rand::rngs::StdRng;
use rand::rngs::ThreadRng;
use rand::RngCore;
use rand::SeedableRng;
use vstd::prelude::*;

verus! {

/// `rand::rngs::StdRng`, the generator. Its state is hidden: the library only makes one, draws
/// from it and drops it.
#[verifier::external_type_specification]
#[verifier::external_body]
pub struct ExStdRng(StdRng);

/// Word `index` of the stream of a seed: what draw `index`, counted from 0, returns from the
/// generator that `StdRng::seed_from_u64` makes of the seed, where every draw is a `next_u32`.
/// Nothing else is known of it.
pub uninterp spec fn seeded_word(seed: u64, index: int) -> u32;

/// The word that a generator yields `index` draws from now, where every draw is a `next_u32`:
/// what the hidden state of the generator holds in store.
pub uninterp spec fn pending_word(generator: StdRng, index: int) -> u32;

/// `StdRng::seed_from_u64`. The state of the new generator is computed from the seed alone, so
/// the words that it will yield are those of the seed's stream.
#[verifier::external_body]
fn seed_generator(seed: u64) -> (generator: StdRng)
    ensures
        forall|index: int|
            0 <= index ==> #[trigger] pending_word(generator, index) == seeded_word(seed, index),
{
    StdRng::seed_from_u64(seed)
}

/// `StdRng::next_u32`. It returns the first word that is pending and steps the generator past
/// it: every later word moves one place up. The state alone decides both.
#[verifier::external_body]
fn draw_word(generator: &mut StdRng) -> (word: u32)
    ensures
        word == pending_word(*old(generator), 0),
        forall|index: int|
            0 <= index ==> #[trigger] pending_word(*final(generator), index) == pending_word(
                *old(generator),
                index + 1,
            ),
{
    generator.next_u32()
}

/// `rand::rngs::ThreadRng`, the handle on the generator of the thread. Its state is hidden.
#[verifier::external_type_specification]
#[verifier::external_body]
pub struct ExThreadRng(ThreadRng);

/// `rand::thread_rng`: the generator of the thread, which the system seeds. Nothing is claimed
/// of it. Where the system gives the generator no entropy when the thread first asks, `rand`
/// panics.
#[verifier::external_body]
fn thread_generator() -> ThreadRng {
    rand::thread_rng()
}

/// `ThreadRng::next_u64`: a word of the generator of the thread. Nothing is claimed of it.
#[verifier::external_body]
fn draw_seed(generator: &mut ThreadRng) -> u64 {
    generator.next_u64()
}

/// A fresh seed, whatever the generator of the thread gives.
pub(crate) fn fresh_seed() -> u64 {
    let mut generator = thread_generator();
    draw_seed(&mut generator)
}

/// The sampling offsets of the octaves of a seed: the pair of octave `i` is made of the words
/// `2 i` and `2 i + 1` of the seed's stream.
pub open spec fn octave_offsets_of(seed: u64, octaves: nat) -> Seq<(u32, u32)> {
    Seq::new(
        octaves,
        |i: int| (seeded_word(seed, 2 * i), seeded_word(seed, 2 * i + 1)),
    )
}

/// Draws one offset pair per octave from the stream of `seed`, in octave order.
pub fn octave_offsets(seed: u64, octaves: usize) -> (offsets: Vec<(u32, u32)>)
    ensures
        offsets@ == octave_offsets_of(seed, octaves as nat),
{
    let mut generator = seed_generator(seed);
    let mut offsets: Vec<(u32, u32)> = Vec::new();
    let mut i: usize = 0;
    while i < octaves
        invariant
            i <= octaves,
            forall|index: int|
                0 <= index ==> #[trigger] pending_word(generator, index) == seeded_word(
                    seed,
                    2 * i + index,
                ),
            offsets@ == octave_offsets_of(seed, i as nat),
        decreases octaves - i,
    {
        let offset_x = draw_word(&mut generator);
        let offset_y = draw_word(&mut generator);
        offsets.push((offset_x, offset_y));
        i += 1;
    }
    offsets
}

} // verus!
