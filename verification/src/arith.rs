//! Bounds on products.

use vstd::prelude::*;

verus! {

/// If `|a| <= x` and `|b| <= y`, then `|a * b| <= x * y`.
pub proof fn lemma_mul_bound(a: int, b: int, x: int, y: int)
    requires
        -x <= a <= x,
        -y <= b <= y,
    ensures
        -(x * y) <= a * b <= x * y,
{
    assert(-(x * y) <= a * b <= x * y) by (nonlinear_arith)
        requires
            -x <= a <= x,
            -y <= b <= y,
    ;
}

} // verus!
