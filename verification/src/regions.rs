//! Axis-aligned rectangular regions: containment tests and uniform sampling.

use crate::random::Randomness;
use std::ops::Range;
use vstd::prelude::*;

verus! {

/// The smaller of two coordinates.
pub open spec fn lesser(a: int, b: int) -> int {
    if a <= b {
        a
    } else {
        b
    }
}

/// The larger of two coordinates.
pub open spec fn greater(a: int, b: int) -> int {
    if a <= b {
        b
    } else {
        a
    }
}

/// The four boundaries of a region, in the order top, right, bottom, left.
/// Top and bottom bound `y`; left and right bound `x`.
pub type Sides = (i64, i64, i64, i64);

/// The least `x` between the left and the right boundary, whichever of the
/// two is the smaller.
pub open spec fn x_low(sides: Sides) -> int {
    lesser(sides.3 as int, sides.1 as int)
}

/// The greatest `x` between the left and the right boundary.
pub open spec fn x_high(sides: Sides) -> int {
    greater(sides.3 as int, sides.1 as int)
}

/// The least `y` between the top and the bottom boundary, whichever of the
/// two is the smaller.
pub open spec fn y_low(sides: Sides) -> int {
    lesser(sides.0 as int, sides.2 as int)
}

/// The greatest `y` between the top and the bottom boundary.
pub open spec fn y_high(sides: Sides) -> int {
    greater(sides.0 as int, sides.2 as int)
}

/// Whether the point `(x, y)` lies within the boundaries, edges included.
///
/// The boundaries are compared as they stand: when the top lies below the
/// bottom, or the right boundary to the left of the left one, no point is
/// inside.
pub open spec fn inside(sides: Sides, x: int, y: int) -> bool {
    sides.2 <= y <= sides.0 && sides.3 <= x <= sides.1
}

/// Whether the boundaries are in their natural order: the bottom not above
/// the top and the left not beyond the right.
pub open spec fn ordered(sides: Sides) -> bool {
    sides.2 <= sides.0 && sides.3 <= sides.1
}

/// Whether both extents of the boundaries are non-empty, so that a point can
/// be sampled between them.
pub open spec fn samplable(sides: Sides) -> bool {
    sides.0 != sides.2 && sides.1 != sides.3
}

/// A uniform distribution over the half-open interval `[low, high)`.
///
/// Only the two bounds are stored; a sample is drawn from a source of random
/// numbers each time one is asked for.
#[derive(Clone, Copy, Debug, PartialEq, Eq, Structural)]
pub struct Between {
    low: i64,
    high: i64,
}

impl Between {
    /// The inclusive lower bound.
    pub closed spec fn low(self) -> int {
        self.low as int
    }

    /// The exclusive upper bound.
    pub closed spec fn high(self) -> int {
        self.high as int
    }

    /// The distribution over `[low, high)`. An empty interval cannot be
    /// sampled, so the bounds must be strictly ordered.
    pub fn new(low: i64, high: i64) -> (between: Between)
        requires
            low < high,
        ensures
            between.low() == low,
            between.high() == high,
    {
        Between { low, high }
    }

    /// Draws one value from the given source.
    pub fn sample_with(&self, source: &mut Randomness) -> (value: i64)
        requires
            self.low() < self.high(),
        ensures
            old(source).may_yield(self.low(), self.high(), value as int),
            *final(source) == old(source).advanced(),
    {
        source.coordinate_between(self.low, self.high)
    }

    /// Draws one value; every call advances the thread-local generator.
    pub fn sample(&self) -> (value: i64)
        requires
            self.low() < self.high(),
        ensures
            self.low() <= value < self.high(),
    {
        let mut source = Randomness::Thread;
        self.sample_with(&mut source)
    }
}

/// Something with four boundaries that can be asked whether it contains a
/// point and can produce a random point of its own.
pub trait Region {
    /// The current boundaries.
    spec fn sides(&self) -> Sides;

    /// Whether the sampling distributions agree with the current boundaries.
    spec fn well_formed(&self) -> bool;

    /// The pair of distributions for an `x` range and a `y` range.
    fn create_rng(x_range: Range<i64>, y_range: Range<i64>) -> (betweens: (Between, Between))
        requires
            x_range.start < x_range.end,
            y_range.start < y_range.end,
        ensures
            betweens.0.low() == x_range.start,
            betweens.0.high() == x_range.end,
            betweens.1.low() == y_range.start,
            betweens.1.high() == y_range.end,
    {
        (Between::new(x_range.start, x_range.end), Between::new(y_range.start, y_range.end))
    }

    /// The distributions of `x` and of `y`. In a well-formed region they span
    /// exactly the current boundaries, taken in ascending order.
    fn get_betweens(&self) -> (betweens: (&Between, &Between))
        requires
            self.well_formed(),
        ensures
            betweens.0.low() == x_low(self.sides()),
            betweens.0.high() == x_high(self.sides()),
            betweens.1.low() == y_low(self.sides()),
            betweens.1.high() == y_high(self.sides()),
            betweens.0.low() < betweens.0.high(),
            betweens.1.low() < betweens.1.high(),
    ;

    /// The current boundaries: top, right, bottom, left.
    fn get_sides(&self) -> (sides: Sides)
        ensures
            sides == self.sides(),
    ;

    /// A random point `(x, y)` from the given source, which yields first
    /// `x`, between the left and the right boundary, and then `y`, between
    /// the top and the bottom boundary. The point lies inside the region
    /// whenever the boundaries are in their natural order.
    fn get_rand_pt_with(&self, source: &mut Randomness) -> (point: (i64, i64))
        requires
            self.well_formed(),
        ensures
            old(source).may_yield(x_low(self.sides()), x_high(self.sides()), point.0 as int),
            old(source).advanced().may_yield(
                y_low(self.sides()),
                y_high(self.sides()),
                point.1 as int,
            ),
            *final(source) == old(source).advanced().advanced(),
            ordered(self.sides()) ==> inside(self.sides(), point.0 as int, point.1 as int),
    {
        let (x_between, y_between) = self.get_betweens();
        let x = x_between.sample_with(source);
        let y = y_between.sample_with(source);
        (x, y)
    }

    /// A random point `(x, y)`, each coordinate drawn independently and
    /// uniformly between the two boundaries of its axis by the thread-local
    /// generator. The point lies inside the region whenever the boundaries
    /// are in their natural order.
    fn get_rand_pt(&self) -> (point: (i64, i64))
        requires
            self.well_formed(),
        ensures
            x_low(self.sides()) <= point.0 < x_high(self.sides()),
            y_low(self.sides()) <= point.1 < y_high(self.sides()),
            ordered(self.sides()) ==> inside(self.sides(), point.0 as int, point.1 as int),
    {
        let mut source = Randomness::Thread;
        self.get_rand_pt_with(&mut source)
    }

    /// Whether the point `(x, y)` lies inside the region, edges included.
    fn is_pt_inside(&self, x: i64, y: i64) -> (within: bool)
        ensures
            within == inside(self.sides(), x as int, y as int),
    {
        let (top, right, bottom, left) = self.get_sides();
        y <= top && y >= bottom && x >= left && x <= right
    }
}

/// A rectangular zone of the playing field.
#[derive(Clone, Copy, Debug)]
pub struct Zone {
    pub top: i64,
    pub right: i64,
    pub bottom: i64,
    pub left: i64,
    x_between: Between,
    y_between: Between,
}

fn min_of(a: i64, b: i64) -> (m: i64)
    ensures
        m == lesser(a as int, b as int),
{
    if a <= b {
        a
    } else {
        b
    }
}

fn max_of(a: i64, b: i64) -> (m: i64)
    ensures
        m == greater(a as int, b as int),
{
    if a <= b {
        b
    } else {
        a
    }
}

impl Zone {
    /// The zone with the given boundaries whose distributions are derived
    /// from them.
    pub closed spec fn with_sides(sides: Sides) -> Zone {
        Zone {
            top: sides.0,
            right: sides.1,
            bottom: sides.2,
            left: sides.3,
            x_between: Between {
                low: if sides.3 <= sides.1 { sides.3 } else { sides.1 },
                high: if sides.3 <= sides.1 { sides.1 } else { sides.3 },
            },
            y_between: Between {
                low: if sides.0 <= sides.2 { sides.0 } else { sides.2 },
                high: if sides.0 <= sides.2 { sides.2 } else { sides.0 },
            },
        }
    }

    /// The unit square. Its top lies below its bottom, so it contains no
    /// point.
    pub open spec fn spec_empty() -> Zone {
        Zone::with_sides((0, 1, 1, 0))
    }

    /// The unit square, a placeholder for a zone whose layout is not known
    /// yet. Its top lies below its bottom, so it contains no point.
    #[verifier::when_used_as_spec(spec_empty)]
    pub fn empty() -> (zone: Zone)
        ensures
            zone == Zone::empty(),
            zone.well_formed(),
            zone.sides() == (0i64, 1i64, 1i64, 0i64),
    {
        Zone::new(0, 1, 1, 0)
    }

    /// The zone with the given boundaries. Both extents must be non-empty.
    pub fn new(top: i64, right: i64, bottom: i64, left: i64) -> (zone: Zone)
        requires
            samplable((top, right, bottom, left)),
        ensures
            zone == Zone::with_sides((top, right, bottom, left)),
            zone.well_formed(),
            zone.sides() == (top, right, bottom, left),
    {
        let (x_between, y_between) = Zone::create_rng(
            min_of(left, right)..max_of(left, right),
            min_of(top, bottom)..max_of(top, bottom),
        );
        Zone { top, right, bottom, left, x_between, y_between }
    }

    /// Whether the distributions agree with the current boundaries. They do
    /// unless a boundary was written without the others being updated.
    pub fn is_well_formed(&self) -> (agree: bool)
        ensures
            agree == self.well_formed(),
    {
        self.top != self.bottom && self.left != self.right && self.x_between.low == min_of(
            self.left,
            self.right,
        ) && self.x_between.high == max_of(self.left, self.right) && self.y_between.low == min_of(
            self.top,
            self.bottom,
        ) && self.y_between.high == max_of(self.top, self.bottom)
    }

    /// Replaces the boundaries and re-derives the distributions from them.
    pub fn update(&mut self, top: i64, right: i64, bottom: i64, left: i64)
        requires
            samplable((top, right, bottom, left)),
        ensures
            *final(self) == Zone::with_sides((top, right, bottom, left)),
            final(self).well_formed(),
            final(self).sides() == (top, right, bottom, left),
    {
        let (x_between, y_between) = Zone::create_rng(
            min_of(left, right)..max_of(left, right),
            min_of(top, bottom)..max_of(top, bottom),
        );
        self.top = top;
        self.right = right;
        self.bottom = bottom;
        self.left = left;
        self.x_between = x_between;
        self.y_between = y_between;
    }
}

impl Region for Zone {
    closed spec fn sides(&self) -> Sides {
        (self.top, self.right, self.bottom, self.left)
    }

    closed spec fn well_formed(&self) -> bool {
        &&& samplable(self.sides())
        &&& *self == Zone::with_sides(self.sides())
    }

    fn get_betweens(&self) -> (betweens: (&Between, &Between)) {
        (&self.x_between, &self.y_between)
    }

    fn get_sides(&self) -> (sides: Sides) {
        (self.top, self.right, self.bottom, self.left)
    }
}

/// A zone built from boundaries has those boundaries, and is well formed
/// exactly when both of its extents are non-empty.
pub proof fn lemma_with_sides(sides: Sides)
    ensures
        Zone::with_sides(sides).sides() == sides,
        Zone::with_sides(sides).well_formed() <==> samplable(sides),
{
}

} // verus!
