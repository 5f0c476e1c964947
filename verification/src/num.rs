//! The numeric domain of the geometry engine.
//!
//! Lengths and coordinates are fixed-point values: an `i64` counts
//! micro-units, [`SCALE`] of them to one unit. Ratios (lengths relative to a
//! context) are counted in parts per million of the base length. Every public
//! operation states its result exactly over mathematical integers and is
//! proved free of overflow from the stated bounds.

use vstd::prelude::*;

verus! {

use vstd::arithmetic::div_mod::lemma_div_is_ordered;
use vstd::arithmetic::div_mod::lemma_div_pos_is_pos;

/// Micro-units per unit: the fixed-point scale of all lengths, and the
/// denominator of ratio values (a ratio of `SCALE` is 100 percent).
pub const SCALE: i64 = 1_000_000;

/// Largest magnitude of a raw input length or coordinate (one million units).
pub const ABS_MAX: i64 = 1_000_000_000_000;

/// Largest magnitude of an input ratio (ten times the base).
pub const RATIO_MAX: i64 = 10_000_000;

/// Largest ratio magnitude any resolution step may see; leaves room for the
/// curvature-compensation margin added to insets of round shapes.
pub const RATIO_HARD_MAX: i64 = 11_000_000;

/// Largest magnitude of a size intent resolved against a raw region base.
pub const SIZE_RES_MAX: i64 = 11_000_000_000_000;

/// Largest magnitude of an inset side resolved against a chosen region.
pub const PAD_MAX: i64 = 122_000_000_000_000;

/// Largest magnitude of a frame side that content reports when free to size
/// itself.
pub const CONTENT_MAX: i64 = 1_000_000_000_000_000;

/// Largest magnitude of a layout-region side length.
pub const POD_MAX: i64 = 2_000_000_000_000_000;

/// Largest magnitude of a base length a relative value is resolved against.
pub const BASE_MAX: i64 = 2_000_000_000_000_000;

/// Largest magnitude of a resolved length.
pub const RESOLVED_MAX: i64 = 23_000_000_000_000_001;

/// Largest magnitude of a target box side handed to the polygon normalizer;
/// covers any frame side widened by outsets.
pub const TARGET_MAX: i64 = 100_000_000_000_000_000;

/// Truncating (round-toward-zero) division of `a` by a positive `b`.
pub open spec fn tdiv(a: int, b: int) -> int
    recommends
        b > 0,
{
    if a >= 0 {
        a / b
    } else {
        -((-a) / b)
    }
}

/// Truncating (round-toward-zero) division of `p` by [`SCALE`].
pub open spec fn tdiv_scale(p: int) -> int {
    tdiv(p, SCALE as int)
}

/// The part of `base` that a ratio of `ratio` parts per million selects,
/// rounded toward zero.
pub open spec fn ratio_apply(ratio: int, base: int) -> int {
    tdiv_scale(ratio * base)
}

/// `ratio_apply` is bounded by the product of the operand bounds.
pub proof fn lemma_ratio_apply_bound(ratio: int, base: int, rb: int, bb: int)
    requires
        -rb <= ratio <= rb,
        -bb <= base <= bb,
        0 <= rb,
        0 <= bb,
    ensures
        -((rb * bb) / (SCALE as int)) <= ratio_apply(ratio, base) <= (rb * bb) / (SCALE as int),
{
    let p = ratio * base;
    let m = rb * bb;
    assert(-m <= p <= m) by (nonlinear_arith)
        requires
            -rb <= ratio <= rb,
            -bb <= base <= bb,
            0 <= rb,
            0 <= bb,
            p == ratio * base,
            m == rb * bb,
    ;
    if p >= 0 {
        lemma_div_is_ordered(p, m, SCALE as int);
        lemma_div_pos_is_pos(p, SCALE as int);
    } else {
        lemma_div_is_ordered(-p, m, SCALE as int);
        lemma_div_pos_is_pos(-p, SCALE as int);
    }
}

/// Computes [`ratio_apply`] on machine integers.
pub fn ratio_part(ratio: i64, base: i64) -> (r: i64)
    requires
        -RATIO_HARD_MAX <= ratio <= RATIO_HARD_MAX,
        -BASE_MAX <= base <= BASE_MAX,
    ensures
        r == ratio_apply(ratio as int, base as int),
        -(((RATIO_HARD_MAX as int) * (BASE_MAX as int)) / (SCALE as int)) <= r as int
            <= ((RATIO_HARD_MAX as int) * (BASE_MAX as int)) / (SCALE as int),
{
    proof {
        lemma_ratio_apply_bound(ratio as int, base as int, RATIO_HARD_MAX as int, BASE_MAX as int);
    }
    let neg: bool = (ratio < 0) != (base < 0);
    let ra: u128 = if ratio < 0 {
        (-ratio) as u128
    } else {
        ratio as u128
    };
    let ba: u128 = if base < 0 {
        (-base) as u128
    } else {
        base as u128
    };
    proof {
        let p = (ratio as int) * (base as int);
        assert((ra as int) * (ba as int) == if p >= 0 { p } else { -p }) by (nonlinear_arith)
            requires
                p == (ratio as int) * (base as int),
                ra as int == if ratio < 0 { -(ratio as int) } else { ratio as int },
                ba as int == if base < 0 { -(base as int) } else { base as int },
        ;
        assert((ra as int) * (ba as int) <= (RATIO_HARD_MAX as int) * (BASE_MAX as int))
            by (nonlinear_arith)
            requires
                0 <= ra as int <= RATIO_HARD_MAX as int,
                0 <= ba as int <= BASE_MAX as int,
        ;
    }
    let p: u128 = ra * ba;
    let q: u128 = p / (SCALE as u128);
    proof {
        lemma_div_is_ordered(
            p as int,
            (RATIO_HARD_MAX as int) * (BASE_MAX as int),
            SCALE as int,
        );
        lemma_div_pos_is_pos(p as int, SCALE as int);
    }
    if neg {
        proof {
            let pi = (ratio as int) * (base as int);
            assert(pi <= 0) by (nonlinear_arith)
                requires
                    pi == (ratio as int) * (base as int),
                    ((ratio as int) < 0) != ((base as int) < 0),
            ;
        }
        -(q as i64)
    } else {
        proof {
            let pi = (ratio as int) * (base as int);
            assert(pi >= 0) by (nonlinear_arith)
                requires
                    pi == (ratio as int) * (base as int),
                    ((ratio as int) < 0) == ((base as int) < 0),
            ;
        }
        q as i64
    }
}

/// Returns the smaller of two lengths.
pub fn min_len(a: i64, b: i64) -> (r: i64)
    ensures
        r == if a <= b { a } else { b },
{
    if a <= b {
        a
    } else {
        b
    }
}

/// Returns the larger of two lengths.
pub fn max_len(a: i64, b: i64) -> (r: i64)
    ensures
        r == if a >= b { a } else { b },
{
    if a >= b {
        a
    } else {
        b
    }
}

} // verus!
