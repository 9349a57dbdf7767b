//! The battle's source of chance.

use macroquad::rand::RandGenerator;
use vstd::prelude::*;

use crate::geometry::TURN;

verus! {

/// The generator of macroquad's `rand` module, carried as it is.
#[verifier::external_type_specification]
#[verifier::external_body]
pub struct ExRandGenerator(RandGenerator);

/// The widest range that a draw may span.
pub const DRAW_LIMIT: i64 = 1_048_576;

/// `RandGenerator::new` of macroquad's `rand` module: a generator in its
/// starting state. Nothing is claimed of it.
#[verifier::external_body]
fn generator() -> RandGenerator {
    RandGenerator::new()
}

/// `RandGenerator::srand`: restarts the generator from `seed`. Nothing is
/// claimed of it.
#[verifier::external_body]
fn reseed(source: &RandGenerator, seed: u64) {
    source.srand(seed)
}

/// `RandGenerator::gen_range` on `u32`. The generator scales a 32-bit draw
/// into the range in double precision and cuts the fraction off; while
/// `high` is at most 2^20 that product is exact, so the result is at least
/// `low` and below `high`. Which value comes is not stated.
#[verifier::external_body]
fn draw(source: &RandGenerator, low: u32, high: u32) -> (r: u32)
    requires
        low < high <= 1_048_576,
    ensures
        low <= r < high,
{
    source.gen_range(low, high)
}

/// A seeded generator of random numbers.
pub struct Dice {
    source: RandGenerator,
}

impl Dice {
    /// A generator that starts from `seed`.
    pub fn new(seed: u64) -> Dice {
        let source = generator();
        reseed(&source, seed);
        Dice { source }
    }

    /// Some whole number from `low` up to, but not including, `high`.
    pub fn between(&self, low: i64, high: i64) -> (r: i64)
        requires
            -DRAW_LIMIT <= low < high <= DRAW_LIMIT,
            high - low <= DRAW_LIMIT,
        ensures
            low <= r < high,
    {
        let span: u32 = (high - low) as u32;
        let pick: u32 = draw(&self.source, 0, span);
        Self::above(low, pick)
    }

    /// Some angle of the full turn.
    pub fn angle(&self) -> (r: i64)
        ensures
            0 <= r < TURN,
    {
        self.between(0, TURN)
    }

    /// Where a draw lands in a range that starts at `low`: `steps` above
    /// its start.
    pub fn above(low: i64, steps: u32) -> (r: i64)
        requires
            low + steps <= i64::MAX,
        ensures
            r == low + steps,
    {
        low + steps as i64
    }
}

} // verus!
