//! Small nonlinear-arithmetic facts shared by the geometry proofs.

use vstd::prelude::*;

verus! {

/// A product is bounded by the product of the bounds.
pub proof fn lemma_mul_bounds(x: int, bx: int, y: int, by: int)
    by (nonlinear_arith)
    requires
        -bx <= x,
        x <= bx,
        -by <= y,
        y <= by,
    ensures
        -(bx * by) <= x * y,
        x * y <= bx * by,
{
}

/// A square is never negative, and the square of a nonzero integer is at least one.
pub proof fn lemma_square_nonneg(x: int)
    by (nonlinear_arith)
    ensures
        x * x >= 0,
        x != 0 ==> x * x >= 1,
{
}

/// The square of a difference, expanded.
pub proof fn lemma_sq_diff(x: int, y: int)
    by (nonlinear_arith)
    ensures
        (x - y) * (x - y) == x * x - 2 * (x * y) + y * y,
{
}

/// Products of pairs can be regrouped.
pub proof fn lemma_mul_regroup(x: int, y: int, z: int, w: int)
    by (nonlinear_arith)
    ensures
        (x * y) * (z * w) == (x * z) * (y * w),
        (x * y) * (z * w) == (z * y) * (x * w),
{
}

/// A product of positive integers is positive.
pub proof fn lemma_mul_pos(x: int, y: int)
    by (nonlinear_arith)
    requires
        x >= 1,
        y >= 1,
    ensures
        x * y >= 1,
{
}

} // verus!
