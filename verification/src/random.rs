//! Where random numbers come from: the thread-local generator of the `rand`
//! crate, or a seeded generator that gives the same numbers on every run.

use rand::distributions::{Distribution, Uniform};
use rand::Rng;
use vstd::prelude::*;

verus! {

/// A source of random numbers.
#[derive(Debug, Clone, Copy, PartialEq, Eq, Structural)]
pub enum Randomness {
    /// The thread-local generator of the `rand` crate, which the operating
    /// system seeds. Nothing is known of a number that it yields but the
    /// range in which the number lies.
    Thread,
    /// A linear congruential generator in the given state. The state
    /// determines every number that the generator will yield. A number of
    /// a range is the remainder of a raw number by the length of the range,
    /// so the numbers of a range are not all exactly as likely; the
    /// generator is there for runs that can be repeated, not for fairness.
    Seeded(u64),
}

/// The multiplier of the seeded generator.
pub const MULTIPLIER: u64 = 6364136223846793005;

/// The increment of the seeded generator.
pub const INCREMENT: u64 = 1442695040888963407;

/// Draws one offset with `Rng::gen_range(low..high)` of the `rand` crate on
/// the thread-local generator.
///
/// `gen_range` panics on an empty range, which the precondition rules out.
/// The crate documents that the value lies in the half-open range
/// `[low, high)`; nothing more is claimed of it. The generator takes its seed
/// from the operating system when a thread first uses it, and a fresh one
/// from time to time afterwards; it panics when the system gives none. No
/// argument has a part in that, and no precondition can rule it out.
#[verifier::external_body]
fn draw_offset(low: u64, high: u64) -> (offset: u64)
    requires
        low < high,
    ensures
        low <= offset < high,
{
    rand::thread_rng().gen_range(low..high)
}

/// Draws one value from `Uniform::new(low, high)` of the `rand` crate with the
/// thread-local generator.
///
/// `Uniform::new` panics unless `low < high`, which the precondition rules
/// out. The crate documents that the distribution samples from the half-open
/// range `[low, high)`; nothing more is claimed of the value drawn. The
/// generator takes its seed from the operating system when a thread first
/// uses it, and a fresh one from time to time afterwards; it panics when the
/// system gives none. No argument has a part in that, and no precondition
/// can rule it out.
#[verifier::external_body]
fn draw_coordinate(low: i64, high: i64) -> (value: i64)
    requires
        low < high,
    ensures
        low <= value < high,
{
    Uniform::new(low, high).sample(&mut rand::thread_rng())
}

impl Randomness {
    /// The state that follows the given state of the seeded generator.
    pub open spec fn step(state: u64) -> u64 {
        state.wrapping_mul(MULTIPLIER).wrapping_add(INCREMENT)
    }

    /// The number that the seeded generator yields when it leaves the given
    /// state: the state that follows, with its upper half folded into its
    /// lower half.
    pub open spec fn yield_of(state: u64) -> u64 {
        Self::step(state) ^ (Self::step(state) >> 32)
    }

    /// The source after it has yielded one number. The thread-local
    /// generator stays what it is; the seeded generator moves on by one
    /// state.
    pub open spec fn advanced(self) -> Randomness {
        match self {
            Randomness::Thread => Randomness::Thread,
            Randomness::Seeded(state) => Randomness::Seeded(Self::step(state)),
        }
    }

    /// The source after it has yielded `count` numbers.
    pub open spec fn advanced_by(self, count: nat) -> Randomness
        decreases count,
    {
        if count == 0 {
            self
        } else {
            self.advanced_by((count - 1) as nat).advanced()
        }
    }

    /// Whether `value` is a number that the source may yield between `low`
    /// and `high`. Every number lies in `[low, high)`; that of a seeded
    /// generator is the remainder of what the generator yields by the length
    /// of the range, counted from `low`.
    pub open spec fn may_yield(self, low: int, high: int, value: int) -> bool {
        &&& low <= value < high
        &&& self matches Randomness::Seeded(state) ==> value == low + Self::yield_of(state) as int
            % (high - low)
    }

    /// A generator that yields the same numbers whenever it is started from
    /// the same seed.
    pub fn seeded(seed: u64) -> (source: Randomness)
        ensures
            source == Randomness::Seeded(seed),
    {
        Randomness::Seeded(seed)
    }

    /// The next raw number of the seeded generator, and its next state.
    fn turn(state: u64) -> (next: (u64, u64))
        ensures
            next.0 == Self::yield_of(state),
            next.1 == Self::step(state),
    {
        let following = state.wrapping_mul(MULTIPLIER).wrapping_add(INCREMENT);
        (following ^ (following >> 32), following)
    }

    /// Yields an offset in `[low, high)`.
    pub fn offset_between(&mut self, low: u64, high: u64) -> (offset: u64)
        requires
            low < high,
        ensures
            old(self).may_yield(low as int, high as int, offset as int),
            *final(self) == old(self).advanced(),
    {
        match *self {
            Randomness::Thread => draw_offset(low, high),
            Randomness::Seeded(state) => {
                let (raw, following) = Self::turn(state);
                *self = Randomness::Seeded(following);
                low + raw % (high - low)
            },
        }
    }

    /// Yields a coordinate in `[low, high)`.
    pub fn coordinate_between(&mut self, low: i64, high: i64) -> (coordinate: i64)
        requires
            low < high,
        ensures
            old(self).may_yield(low as int, high as int, coordinate as int),
            *final(self) == old(self).advanced(),
    {
        match *self {
            Randomness::Thread => draw_coordinate(low, high),
            Randomness::Seeded(state) => {
                let (raw, following) = Self::turn(state);
                *self = Randomness::Seeded(following);
                let length: u64 = (high as i128 - low as i128) as u64;
                (low as i128 + (raw % length) as i128) as i64
            },
        }
    }
}

/// Yielding `first` numbers and then `second` more is yielding them all.
pub proof fn lemma_advanced_by_sum(source: Randomness, first: nat, second: nat)
    ensures
        source.advanced_by(first).advanced_by(second) == source.advanced_by(first + second),
    decreases second,
{
    if second > 0 {
        lemma_advanced_by_sum(source, first, (second - 1) as nat);
    }
}

} // verus!
