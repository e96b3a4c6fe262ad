//! Inverse depth: the key by which samples that fall into one cell compete.

use vstd::prelude::*;
use crate::arith::lemma_mul_bound;

verus! {

/// The largest magnitude that the numerator of an inverse depth may have
/// (two to the power 48).
pub const DEPTH_UNIT: i128 = 281474976710656;

/// The largest denominator that an inverse depth may have (two to the power 68).
pub const DEPTH_DEN_LIMIT: i128 = 295147905179352825856;

/// An inverse depth, held exactly as the fraction `num / den`. Larger values
/// are nearer to the viewer; zero stands for "nothing drawn yet".
#[derive(Clone, Copy, Debug, PartialEq, Eq, Structural)]
pub struct InverseDepth {
    pub num: i128,
    pub den: i128,
}

impl InverseDepth {
    /// The denominator is positive and both parts are small enough for two
    /// values to be compared without overflow.
    pub open spec fn wf(self) -> bool {
        &&& -DEPTH_UNIT <= self.num <= DEPTH_UNIT
        &&& 0 < self.den <= DEPTH_DEN_LIMIT
    }

    /// `self > other` as fractions.
    pub open spec fn exceeds(self, other: InverseDepth) -> bool {
        self.num * other.den > other.num * self.den
    }

    /// `self == other` as fractions.
    pub open spec fn same_value(self, other: InverseDepth) -> bool {
        self.num * other.den == other.num * self.den
    }

    /// The baseline of an empty cell.
    pub open spec fn baseline_spec() -> InverseDepth {
        InverseDepth { num: 0, den: 1 }
    }

    /// The value zero: the depth of a cell into which nothing was drawn.
    pub fn baseline() -> (d: InverseDepth)
        ensures
            d == Self::baseline_spec(),
            d.wf(),
    {
        InverseDepth { num: 0, den: 1 }
    }

    /// The fraction `num / den`, provided that it is well formed.
    pub fn new(num: i128, den: i128) -> (d: Option<InverseDepth>)
        ensures
            d.is_some() <==> (InverseDepth { num, den }).wf(),
            d.is_some() ==> d.unwrap() == (InverseDepth { num, den }),
    {
        if -DEPTH_UNIT <= num && num <= DEPTH_UNIT && 0 < den && den <= DEPTH_DEN_LIMIT {
            Some(InverseDepth { num, den })
        } else {
            None
        }
    }

    /// Whether `self` is strictly nearer to the viewer than `other`.
    pub fn is_nearer_than(&self, other: &InverseDepth) -> (b: bool)
        requires
            self.wf(),
            other.wf(),
        ensures
            b == self.exceeds(*other),
    {
        proof {
            lemma_mul_bound(
                self.num as int,
                other.den as int,
                DEPTH_UNIT as int,
                DEPTH_DEN_LIMIT as int,
            );
            lemma_mul_bound(
                other.num as int,
                self.den as int,
                DEPTH_UNIT as int,
                DEPTH_DEN_LIMIT as int,
            );
        }
        self.num * other.den > other.num * self.den
    }
}

/// If `b` exceeds `a`, then whatever does not exceed `a` does not exceed `b`.
pub proof fn lemma_exceeds_raises_bound(s: InverseDepth, a: InverseDepth, b: InverseDepth)
    requires
        s.wf(),
        a.wf(),
        b.wf(),
        !s.exceeds(a),
        b.exceeds(a),
    ensures
        !s.exceeds(b),
        !s.same_value(b),
{
    let (sn, sd) = (s.num as int, s.den as int);
    let (an, ad) = (a.num as int, a.den as int);
    let (bn, bd) = (b.num as int, b.den as int);
    assert(sn * ad * bd <= an * sd * bd) by (nonlinear_arith)
        requires
            sn * ad <= an * sd,
            bd > 0,
    ;
    assert(an * bd * sd < bn * ad * sd) by (nonlinear_arith)
        requires
            an * bd < bn * ad,
            sd > 0,
    ;
    assert(sn * bd < bn * sd) by (nonlinear_arith)
        requires
            sn * ad * bd <= an * sd * bd,
            an * bd * sd < bn * ad * sd,
            ad > 0,
    ;
}

} // verus!
