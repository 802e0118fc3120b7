//! Branch selection for the graphical band-structure analysis.
//!
//! At each sample position `x` the analysis function is
//! `parameter * sin(x)/x + cos(x)`, except within `1e-10` of zero, where the
//! analytic limit `sin(x)/x -> 1` gives `parameter + 1` exactly — the guard
//! avoids dividing by a near-zero position. The guard decision and the limit
//! value are exact rationals; the transcendental branch is evaluated outside
//! the verified core, at the position this module hands back.

use crate::rational::{lemma_mul_bound, Rational};
use vstd::prelude::*;

verus! {

/// One sample of the analysis function: either the exact limit value taken
/// at the singularity, or the position at which the transcendental formula
/// is to be evaluated.
#[derive(Clone, Copy, Debug, PartialEq, Eq, Structural)]
pub enum AnalysisPoint {
    /// Within the singularity guard: the exact value `parameter + 1`.
    Limit(Rational),
    /// Outside the guard: evaluate `parameter * sin(x)/x + cos(x)` here.
    Formula(Rational),
}

/// The singularity guard: `|x| <= 1e-10` as an exact comparison. The
/// formula divides by `x`, so positions this close to zero take the
/// analytic limit instead. The threshold is the exact rational `1/10^10`.
pub open spec fn near_singularity(x: Rational) -> bool {
    -x.den <= x.num * 10_000_000_000 <= x.den
}

/// What the analysis produces for one position: the exact limit
/// `parameter + 1` inside the guard, the untouched position outside it.
pub open spec fn analysis_point_for(x: Rational, parameter: Rational, p: AnalysisPoint) -> bool {
    if near_singularity(x) {
        p matches AnalysisPoint::Limit(v) && v.num == parameter.num + parameter.den && v.den
            == parameter.den
    } else {
        p == AnalysisPoint::Formula(x)
    }
}

/// Full description of an analysis sequence: one point per position.
pub open spec fn is_analysis_points(
    r: Seq<AnalysisPoint>,
    xs: Seq<Rational>,
    parameter: Rational,
) -> bool {
    &&& r.len() == xs.len()
    &&& forall|i: int| 0 <= i < xs.len() ==> analysis_point_for(xs[i], parameter, #[trigger] r[i])
}

/// Whether `x` falls under the singularity guard `|x| <= 1e-10`.
pub fn is_near_singularity(x: &Rational) -> (r: bool)
    requires
        x.bounded(),
    ensures
        r == near_singularity(*x),
{
    proof {
        lemma_mul_bound(x.num as int, 10_000_000_000int, 0x4000_0000_0000_0000, 10_000_000_000);
    }
    let p: i128 = x.num * 10_000_000_000;
    -x.den <= p && p <= x.den
}

/// The analysis at every position of the sample grid: positions within the
/// singularity guard yield the exact limit `parameter + 1`; all others are
/// handed back for evaluation of `parameter * sin(x)/x + cos(x)`.
pub fn compute_values(positions: &Vec<Rational>, parameter: &Rational) -> (r: Vec<AnalysisPoint>)
    requires
        forall|i: int| 0 <= i < positions@.len() ==> (#[trigger] positions@[i]).bounded(),
        parameter.bounded(),
    ensures
        is_analysis_points(r@, positions@, *parameter),
{
    let limit_val = Rational { num: parameter.num + parameter.den, den: parameter.den };
    let mut out: Vec<AnalysisPoint> = Vec::new();
    let mut i: usize = 0;
    while i < positions.len()
        invariant
            forall|k: int| 0 <= k < positions@.len() ==> (#[trigger] positions@[k]).bounded(),
            parameter.bounded(),
            limit_val.num == parameter.num + parameter.den,
            limit_val.den == parameter.den,
            i <= positions@.len(),
            out@.len() == i,
            forall|k: int|
                0 <= k < i ==> analysis_point_for(positions@[k], *parameter, #[trigger] out@[k]),
        decreases positions@.len() - i,
    {
        let x = positions[i];
        if is_near_singularity(&x) {
            out.push(AnalysisPoint::Limit(limit_val));
        } else {
            out.push(AnalysisPoint::Formula(x));
        }
        i += 1;
    }
    out
}

/// Purity law: the description pins every element, so any two results of
/// `compute_values` for identical inputs are equal sequences.
pub proof fn lemma_analysis_deterministic(
    r1: Seq<AnalysisPoint>,
    r2: Seq<AnalysisPoint>,
    xs: Seq<Rational>,
    parameter: Rational,
)
    requires
        is_analysis_points(r1, xs, parameter),
        is_analysis_points(r2, xs, parameter),
    ensures
        r1 == r2,
{
    assert forall|i: int| 0 <= i < r1.len() implies r1[i] == r2[i] by {
        assert(analysis_point_for(xs[i], parameter, r1[i]));
        assert(analysis_point_for(xs[i], parameter, r2[i]));
    }
    assert(r1 =~= r2);
}

} // verus!
