//! Geometric primitives: axis pairs, points, context-relative lengths and the
//! auto-or-explicit choice used for per-axis size intents.

use vstd::prelude::*;

verus! {

use crate::num::ABS_MAX;
use crate::num::BASE_MAX;
use crate::num::PAD_MAX;
use crate::num::RATIO_HARD_MAX;
use crate::num::RATIO_MAX;
use crate::num::RESOLVED_MAX;
use crate::num::SCALE;
use crate::num::SIZE_RES_MAX;
use crate::num::lemma_ratio_apply_bound;
use crate::num::ratio_apply;
use crate::num::ratio_part;

/// A fixed-point approximation, in parts per million, of `0.5 - sqrt(2)/4`:
/// the ratio by which the insets of a round shape are widened so that content
/// laid out in the inscribed rectangle stays inside the curved boundary.
pub const CURVE_MARGIN_PPM: i64 = 146_447;

/// A pair of values, one per axis.
#[derive(Debug, Clone, Copy, PartialEq, Eq, Structural)]
pub struct Axes<T> {
    /// The value for the horizontal axis.
    pub x: T,
    /// The value for the vertical axis.
    pub y: T,
}

impl<T> Axes<T> {
    /// Pairs a horizontal with a vertical value.
    pub fn new(x: T, y: T) -> (r: Axes<T>)
        ensures
            r.x == x,
            r.y == y,
    {
        Axes { x, y }
    }
}

/// A size: a width and a height in micro-units.
pub type Size = Axes<i64>;

/// A position in micro-units, `x` growing right and `y` growing down.
#[derive(Debug, Clone, Copy, PartialEq, Eq, Structural)]
pub struct Point {
    /// The horizontal coordinate.
    pub x: i64,
    /// The vertical coordinate.
    pub y: i64,
}

impl Point {
    /// Makes a point from its coordinates.
    pub fn new(x: i64, y: i64) -> (r: Point)
        ensures
            r.x == x,
            r.y == y,
    {
        Point { x, y }
    }
}

/// A length relative to a context: an absolute part in micro-units plus a
/// ratio of the base length in parts per million.
#[derive(Debug, Clone, Copy, PartialEq, Eq, Structural)]
pub struct Rel {
    /// The absolute part, in micro-units.
    pub abs: i64,
    /// The relative part, in parts per million of the base.
    pub ratio: i64,
}

impl Rel {
    /// Whether the parts lie within the domain of raw input lengths.
    pub open spec fn wf(self) -> bool {
        &&& -ABS_MAX <= self.abs <= ABS_MAX
        &&& -RATIO_MAX <= self.ratio <= RATIO_MAX
    }

    /// Whether the parts are acceptable to [`Rel::resolve`]; wider than
    /// [`Rel::wf`] by the curvature-compensation margin.
    pub open spec fn resolvable(self) -> bool {
        &&& -ABS_MAX <= self.abs <= ABS_MAX
        &&& -RATIO_HARD_MAX <= self.ratio <= RATIO_HARD_MAX
    }

    /// The absolute length this value denotes against the given base.
    pub open spec fn spec_resolve(self, base: int) -> int {
        self.abs + ratio_apply(self.ratio as int, base)
    }

    /// Makes a relative length from its two parts.
    pub fn new(abs: i64, ratio: i64) -> (r: Rel)
        ensures
            r.abs == abs,
            r.ratio == ratio,
    {
        Rel { abs, ratio }
    }

    /// The zero length.
    pub fn zero() -> (r: Rel)
        ensures
            r.abs == 0,
            r.ratio == 0,
            r.wf(),
    {
        Rel { abs: 0, ratio: 0 }
    }

    /// A purely absolute length.
    pub fn from_abs(abs: i64) -> (r: Rel)
        ensures
            r.abs == abs,
            r.ratio == 0,
    {
        Rel { abs, ratio: 0 }
    }

    /// Converts this relative length into an absolute one against `base`.
    pub fn resolve(self, base: i64) -> (r: i64)
        requires
            self.resolvable(),
            -BASE_MAX <= base <= BASE_MAX,
        ensures
            r == self.spec_resolve(base as int),
            -RESOLVED_MAX <= r <= RESOLVED_MAX,
            self.wf() && -ABS_MAX <= base <= ABS_MAX ==> -SIZE_RES_MAX <= r <= SIZE_RES_MAX,
            -SIZE_RES_MAX <= base <= SIZE_RES_MAX ==> -PAD_MAX <= r <= PAD_MAX,
    {
        proof {
            assert(((RATIO_HARD_MAX as int) * (BASE_MAX as int)) / (SCALE as int)
                == 22_000_000_000_000_000);
            if self.wf() && -ABS_MAX <= base <= ABS_MAX {
                lemma_ratio_apply_bound(self.ratio as int, base as int, RATIO_MAX as int, ABS_MAX as int);
                assert(((RATIO_MAX as int) * (ABS_MAX as int)) / (SCALE as int)
                    == 10_000_000_000_000);
            }
            if -SIZE_RES_MAX <= base <= SIZE_RES_MAX {
                lemma_ratio_apply_bound(
                    self.ratio as int,
                    base as int,
                    RATIO_HARD_MAX as int,
                    SIZE_RES_MAX as int,
                );
                assert(((RATIO_HARD_MAX as int) * (SIZE_RES_MAX as int)) / (SCALE as int)
                    == 121_000_000_000_000);
            }
        }
        let part = ratio_part(self.ratio, base);
        self.abs + part
    }

    /// Widens the ratio part by the curvature-compensation margin.
    pub fn inflate_round(self) -> (r: Rel)
        requires
            -RATIO_MAX <= self.ratio <= RATIO_MAX,
        ensures
            r.abs == self.abs,
            r.ratio == self.ratio + CURVE_MARGIN_PPM,
            -RATIO_HARD_MAX <= r.ratio <= RATIO_HARD_MAX,
    {
        Rel { abs: self.abs, ratio: self.ratio + CURVE_MARGIN_PPM }
    }
}

/// A choice per value: derive it automatically, or use an explicit one.
#[derive(Debug, Clone, Copy, PartialEq, Eq, Structural)]
pub enum Smart<T> {
    /// Derive the value from context (content size or a default).
    Auto,
    /// Use the given value.
    Custom(T),
}

impl<T> Smart<T> {
    /// Whether an explicit value was given.
    pub fn is_custom(&self) -> (r: bool)
        ensures
            r == (*self is Custom),
    {
        matches!(self, Smart::Custom(_))
    }
}

} // verus!
