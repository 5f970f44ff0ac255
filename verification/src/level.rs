//! The network-level formula: the inverse of a piecewise quadratic leveling
//! curve with growth constant 2500 and base constant 10000.
//!
//! The curve assigns level `l` (for `l >= 1`) to every experience value
//! `exp` with `level_threshold(l) <= exp < level_threshold(l + 1)`, where
//! `level_threshold(l) = 1250*l*l + 6250*l - 7500` is the cumulative
//! experience at which level `l` begins. Negative experience marks unknown
//! experience and yields the base level 1.
//!
//! The closed form `floor(1 + p + sqrt(p*p + exp/1250))` with
//! `p = -(10000 - 1250)/2500` computes the same value; this module evaluates
//! the curve in exact integer arithmetic, so a single-precision evaluation
//! of the closed form can differ by one level for inputs immediately next
//! to a threshold, where its rounding error crosses the boundary.

use vstd::prelude::*;

verus! {

/// Cumulative experience at which level `l` begins.
pub open spec fn level_threshold(l: int) -> int {
    1250 * l * l + 6250 * l - 7500
}

/// The level assigned to experience `exp`, counting up from level `l`.
/// Meaningful for `l >= 1` and `level_threshold(l) <= exp`.
pub open spec fn spec_level_from(exp: int, l: int) -> int
    decreases exp - level_threshold(l)
        when 1 <= l && level_threshold(l) <= exp
        via spec_level_from_decreases
{
    if exp < level_threshold(l + 1) {
        l
    } else {
        spec_level_from(exp, l + 1)
    }
}

#[via_fn]
proof fn spec_level_from_decreases(exp: int, l: int) {
    lemma_threshold_step(l);
}

/// The level assigned to experience `exp`: 1 for unknown (negative)
/// experience, otherwise the unique `l >= 1` whose threshold window
/// contains `exp`.
pub open spec fn spec_level(exp: int) -> int {
    if exp < 0 {
        1
    } else {
        spec_level_from(exp, 1)
    }
}

/// Thresholds strictly increase from one level to the next.
proof fn lemma_threshold_step(l: int)
    requires
        0 <= l,
    ensures
        level_threshold(l) < level_threshold(l + 1),
{
    assert(level_threshold(l + 1) - level_threshold(l) == 2500 * l + 7500) by (nonlinear_arith);
}

/// Thresholds increase monotonically with the level.
proof fn lemma_threshold_monotone(a: int, b: int)
    requires
        1 <= a <= b,
    ensures
        level_threshold(a) <= level_threshold(b),
    decreases b - a,
{
    if a < b {
        lemma_threshold_step(b - 1);
        lemma_threshold_monotone(a, b - 1);
    }
}

/// `spec_level_from(exp, l)` lands in the window that contains `exp`.
proof fn lemma_level_from_window(exp: int, l: int)
    requires
        1 <= l,
        level_threshold(l) <= exp,
    ensures
        l <= spec_level_from(exp, l),
        level_threshold(spec_level_from(exp, l)) <= exp,
        exp < level_threshold(spec_level_from(exp, l) + 1),
    decreases exp - level_threshold(l),
{
    lemma_threshold_step(l);
    if exp >= level_threshold(l + 1) {
        lemma_level_from_window(exp, l + 1);
    }
}

/// The window characterisation pins the level: any `l` whose window
/// contains `exp` is `spec_level(exp)`.
pub proof fn lemma_level_unique(exp: int, l: int)
    requires
        0 <= exp,
        1 <= l,
        level_threshold(l) <= exp,
        exp < level_threshold(l + 1),
    ensures
        spec_level(exp) == l,
{
    lemma_level_from_window(exp, 1);
    let v = spec_level_from(exp, 1);
    if v < l {
        lemma_threshold_monotone(v + 1, l);
    }
    if l < v {
        lemma_threshold_monotone(l + 1, v);
    }
}

/// Experience below every level-2 threshold maps to level 1: the base
/// level covers experience 0 through 9999.
pub proof fn lemma_level_base(exp: int)
    requires
        0 <= exp < 10000,
    ensures
        spec_level(exp) == 1,
{
    lemma_level_unique(exp, 1);
}

/// The level is monotonically non-decreasing in the experience, for all
/// non-negative experience values.
pub proof fn lemma_level_monotone(e1: int, e2: int)
    requires
        0 <= e1 <= e2,
    ensures
        spec_level(e1) <= spec_level(e2),
{
    lemma_level_from_window(e1, 1);
    lemma_level_from_window(e2, 1);
    let l1 = spec_level(e1);
    let l2 = spec_level(e2);
    if l2 < l1 {
        lemma_threshold_monotone(l2 + 1, l1);
    }
}

/// Executable evaluation of `level_threshold`, exact over `i64`.
fn threshold(l: i64) -> (t: i64)
    requires
        1 <= l <= 100_000,
    ensures
        t == level_threshold(l as int),
{
    proof {
        assert(l * l <= 100_000i64 * 100_000i64 && l * l >= 1) by (nonlinear_arith)
            requires
                1 <= l <= 100_000,
        ;
        assert(1250 * ((l as int) * (l as int)) == 1250 * (l as int) * (l as int))
            by (nonlinear_arith);
    }
    let sq = l * l;
    1250 * sq + 6250 * l - 7500
}

/// Maps cumulative network experience to the network level: 1 for
/// negative (unknown) experience, otherwise the unique level whose
/// threshold window contains the experience.
pub fn calculate_level(exp: i32) -> (level: i32)
    ensures
        level == spec_level(exp as int),
        1 <= level,
{
    if exp < 0 {
        return 1;
    }
    let e = exp as i64;
    let mut l: i64 = 1;
    proof {
        lemma_level_from_window(e as int, 1);
    }
    loop
        invariant
            1 <= l <= 42_000,
            level_threshold(l as int) <= e as int,
            e == exp as int,
            0 <= e,
            spec_level_from(e as int, l as int) == spec_level(exp as int),
        decreases e as int - level_threshold(l as int),
    {
        proof {
            lemma_threshold_step(l as int);
            if l >= 42_000 {
                assert(level_threshold(42_000) > 0x8000_0000i64) by (nonlinear_arith);
                lemma_threshold_monotone(42_000, l as int);
            }
        }
        let next = threshold(l + 1);
        if e < next {
            proof {
                lemma_level_from_window(e as int, l as int);
            }
            return l as i32;
        }
        l = l + 1;
    }
}


} // verus!
