//! The sample grid: evenly spaced positions between two bounds.
//!
//! `generate_linear_array` produces `count` positions from `start` to `end`
//! inclusive, each the exact rational `start + i * (end - start) / (count - 1)`
//! over a common denominator, so the first and last points equal the bounds
//! exactly and the sequence is strictly increasing whenever `start < end`.

use crate::rational::{lemma_mul_bound, rat_eq, rat_lt, Rational};
use vstd::prelude::*;

verus! {

/// Numerator of grid point `i` over the common denominator `grid_den`:
/// `start + i * (end - start) / (count - 1)` brought to that denominator.
pub open spec fn grid_num(start: Rational, end: Rational, count: int, i: int) -> int {
    start.num * end.den * (count - 1) + i * (end.num * start.den - start.num * end.den)
}

/// Common denominator shared by every grid point.
pub open spec fn grid_den(start: Rational, end: Rational, count: int) -> int {
    start.den * end.den * (count - 1)
}

/// Full description of a generated grid: `count` points, point `i` being the
/// exact rational `grid_num(.., i) / grid_den(..)`.
pub open spec fn is_grid(r: Seq<Rational>, start: Rational, end: Rational, count: int) -> bool {
    &&& r.len() == count
    &&& forall|i: int|
        0 <= i < count ==> (#[trigger] r[i]).num == grid_num(start, end, count, i)
    &&& forall|i: int| 0 <= i < count ==> (#[trigger] r[i]).den == grid_den(start, end, count)
}

/// `count` evenly spaced sample positions from `start` to `end` inclusive,
/// with step `(end - start) / (count - 1)`, computed exactly.
///
/// The first point equals `start` and the last equals `end` as rational
/// values, and the grid is strictly increasing whenever `start < end`.
pub fn generate_linear_array(start: &Rational, end: &Rational, points_count: usize) -> (r: Vec<
    Rational,
>)
    requires
        start.small(),
        end.small(),
        2 <= points_count <= 0x10_0000,
    ensures
        is_grid(r@, *start, *end, points_count as int),
        forall|i: int| 0 <= i < points_count ==> (#[trigger] r@[i]).bounded(),
        rat_eq(r@[0], *start),
        rat_eq(r@[points_count - 1], *end),
        rat_lt(*start, *end) ==> forall|i: int, j: int|
            0 <= i < j < points_count ==> rat_lt(#[trigger] r@[i], #[trigger] r@[j]),
{
    let count_m1: i128 = (points_count as i128) - 1;
    proof {
        lemma_mul_bound(start.num as int, end.den as int, 0x10_0000, 0x10_0000);
        lemma_mul_bound(
            start.num as int * end.den as int,
            count_m1 as int,
            0x100_0000_0000,
            0x10_0000,
        );
        lemma_mul_bound(end.num as int, start.den as int, 0x10_0000, 0x10_0000);
        lemma_mul_bound(start.den as int, end.den as int, 0x10_0000, 0x10_0000);
        lemma_mul_bound(
            start.den as int * end.den as int,
            count_m1 as int,
            0x100_0000_0000,
            0x10_0000,
        );
    }
    let base: i128 = start.num * end.den * count_m1;
    let step_num: i128 = end.num * start.den - start.num * end.den;
    let den: i128 = start.den * end.den * count_m1;
    proof {
        assert(0 < den) by (nonlinear_arith)
            requires
                0 < start.den,
                0 < end.den,
                0 < count_m1,
                den == start.den * end.den * count_m1,
        ;
    }
    let mut out: Vec<Rational> = Vec::new();
    let mut i: usize = 0;
    while i < points_count
        invariant
            2 <= points_count <= 0x10_0000,
            count_m1 == points_count - 1,
            base == grid_num(*start, *end, points_count as int, 0),
            -0x1000_0000_0000_0000 <= base <= 0x1000_0000_0000_0000,
            step_num == end.num * start.den - start.num * end.den,
            -0x200_0000_0000 <= step_num <= 0x200_0000_0000,
            den == grid_den(*start, *end, points_count as int),
            0 < den <= 0x1000_0000_0000_0000,
            i <= points_count,
            out@.len() == i,
            forall|k: int|
                0 <= k < i ==> (#[trigger] out@[k]).num == grid_num(
                    *start,
                    *end,
                    points_count as int,
                    k,
                ),
            forall|k: int| 0 <= k < i ==> (#[trigger] out@[k]).den == den,
            forall|k: int| 0 <= k < i ==> (#[trigger] out@[k]).bounded(),
        decreases points_count - i,
    {
        proof {
            lemma_mul_bound(i as int, step_num as int, 0x10_0000, 0x200_0000_0000);
        }
        out.push(Rational { num: base + (i as i128) * step_num, den });
        i += 1;
    }
    proof {
        assert(rat_eq(out@[0], *start)) by (nonlinear_arith)
            requires
                out@[0].num == start.num * end.den * (points_count - 1),
                out@[0].den == start.den * end.den * (points_count - 1),
                0 < start.den,
                0 < end.den,
                rat_eq(out@[0], *start) == (out@[0].num * start.den == start.num * out@[0].den),
        ;
        assert(rat_eq(out@[points_count - 1], *end)) by (nonlinear_arith)
            requires
                out@[points_count - 1].num == start.num * end.den * (points_count - 1) + (
                points_count - 1) * (end.num * start.den - start.num * end.den),
                out@[points_count - 1].den == start.den * end.den * (points_count - 1),
                rat_eq(out@[points_count - 1], *end) == (out@[points_count - 1].num * end.den
                    == end.num * out@[points_count - 1].den),
        ;
        if rat_lt(*start, *end) {
            assert forall|i2: int, j2: int|
                0 <= i2 < j2 < points_count implies rat_lt(out@[i2], out@[j2]) by {
                assert(rat_lt(out@[i2], out@[j2])) by (nonlinear_arith)
                    requires
                        out@[i2].num == base + i2 * step_num,
                        out@[j2].num == base + j2 * step_num,
                        out@[i2].den == den,
                        out@[j2].den == den,
                        0 < den,
                        0 < step_num,
                        i2 < j2,
                        rat_lt(out@[i2], out@[j2]) == (out@[i2].num * out@[j2].den
                            < out@[j2].num * out@[i2].den),
                ;
            }
        }
    }
    out
}

/// Purity law: the grid description pins every element, so any two results of
/// `generate_linear_array` for identical inputs are equal sequences.
pub proof fn lemma_grid_deterministic(
    r1: Seq<Rational>,
    r2: Seq<Rational>,
    start: Rational,
    end: Rational,
    count: int,
)
    requires
        0 <= count,
        is_grid(r1, start, end, count),
        is_grid(r2, start, end, count),
    ensures
        r1 == r2,
{
    assert(r1 =~= r2);
}

} // verus!
