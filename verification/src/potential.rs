//! The periodic square-wave potential of the Kronig-Penney model.
//!
//! Positions alternate between zero-potential wells and barriers of a fixed
//! height. A position `x` belongs to cell `n = floor(x / period)`; it carries
//! the barrier value exactly when `n*period + width < x < (n+1)*period`, with
//! strict comparisons, so cell boundaries and the well/barrier transition
//! point evaluate to the well.

use crate::rational::{euclid_rem, lemma_mul_bound, rat_lt, rat_zero, Rational};
use vstd::arithmetic::div_mod::{lemma_fundamental_div_mod, lemma_mod_division_less_than_divisor};
use vstd::prelude::*;

verus! {

/// Geometry of one periodic cell: period, barrier width and barrier height,
/// with `0 < width < period`.
#[derive(Clone, Copy, Debug, PartialEq, Eq, Structural)]
pub struct Config {
    pub period: Rational,
    pub width: Rational,
    pub height: Rational,
}

/// The geometry the model is usually run with: period 2, barrier width 1,
/// barrier height 1.
pub open spec fn default_config() -> Config {
    Config {
        period: Rational { num: 2, den: 1 },
        width: Rational { num: 1, den: 1 },
        height: Rational { num: 1, den: 1 },
    }
}

impl Config {
    /// Validity: all parts well-formed and `0 < width < period`.
    pub open spec fn wf(self) -> bool {
        &&& self.period.wf()
        &&& self.width.wf()
        &&& self.height.wf()
        &&& rat_lt(rat_zero(), self.width)
        &&& rat_lt(self.width, self.period)
    }

    /// Machine headroom: all parts within the configuration bound.
    pub open spec fn small(self) -> bool {
        &&& self.period.small()
        &&& self.width.small()
        &&& self.height.small()
    }
}

impl Default for Config {
    /// The default geometry, which is valid and within machine headroom.
    fn default() -> (c: Config)
        ensures
            c == default_config(),
            c.wf(),
            c.small(),
    {
        Config {
            period: Rational { num: 2, den: 1 },
            width: Rational { num: 1, den: 1 },
            height: Rational { num: 1, den: 1 },
        }
    }
}

/// A valid configuration has a positive barrier width and a positive period.
pub proof fn lemma_config_positive(cfg: Config)
    requires
        cfg.wf(),
    ensures
        0 < cfg.width.num,
        0 < cfg.period.num,
{
    assert(0 < cfg.width.num);
    assert(0 < cfg.period.num) by (nonlinear_arith)
        requires
            0 < cfg.width.num,
            0 < cfg.period.den,
            0 < cfg.width.den,
            cfg.width.num * cfg.period.den < cfg.period.num * cfg.width.den,
    ;
}

/// Index of the periodic cell containing `x`: `floor(x / period)`, the
/// real floor, so negative positions map to the cell below zero.
pub open spec fn cell_index(x: Rational, cfg: Config) -> int {
    (x.num * cfg.period.den) / (x.den * cfg.period.num)
}

/// `x` lies strictly inside the barrier region of its cell:
/// `n*period + width < x < (n+1)*period` with `n = floor(x / period)`.
pub open spec fn in_barrier(x: Rational, cfg: Config) -> bool {
    let n = cell_index(x, cfg);
    ((n * cfg.period.num * cfg.width.den + cfg.width.num * cfg.period.den) * x.den < x.num * (
    cfg.period.den * cfg.width.den)) && (x.num * cfg.period.den < (n + 1) * cfg.period.num * x.den)
}

/// The potential at position `x`: the barrier height inside a barrier,
/// zero everywhere else.
pub open spec fn potential_value(x: Rational, cfg: Config) -> Rational {
    if in_barrier(x, cfg) {
        cfg.height
    } else {
        rat_zero()
    }
}

/// Full description of a potential sequence: one value per position, each
/// the potential at that position.
pub open spec fn is_potential_values(r: Seq<Rational>, xs: Seq<Rational>, cfg: Config) -> bool {
    &&& r.len() == xs.len()
    &&& forall|i: int| 0 <= i < xs.len() ==> r[i] == potential_value(xs[i], cfg)
}

/// The barrier test rewritten over the Euclidean remainder: with
/// `a / b = x / period` and `m = a % b`, membership in the barrier is
/// exactly `width * period.den * b < period.num * m * width.den`, and the
/// upper cell boundary is never reached.
proof fn lemma_barrier_test(x: Rational, cfg: Config, a: int, b: int, m: int)
    requires
        x.wf(),
        cfg.wf(),
        a == x.num * cfg.period.den,
        b == x.den * cfg.period.num,
        0 < b,
        m == a % b,
    ensures
        in_barrier(x, cfg) == (cfg.width.num * cfg.period.den * b < cfg.period.num * m
            * cfg.width.den),
{
    let pn = cfg.period.num as int;
    let pd = cfg.period.den as int;
    let wn = cfg.width.num as int;
    let wd = cfg.width.den as int;
    let xn = x.num as int;
    let xd = x.den as int;
    let n = cell_index(x, cfg);
    lemma_config_positive(cfg);
    lemma_fundamental_div_mod(a, b);
    lemma_mod_division_less_than_divisor(a, b);
    assert(n == a / b);
    assert(a == b * n + m);
    assert((n + 1) * pn * xd == b * (n + 1)) by (nonlinear_arith)
        requires
            b == xd * pn,
    ;
    assert(a < b * (n + 1)) by (nonlinear_arith)
        requires
            a == b * n + m,
            m < b,
    ;
    let l1 = (n * pn * wd + wn * pd) * xd;
    let r1 = xn * (pd * wd);
    let l2 = wn * pd * b;
    let r2 = pn * m * wd;
    assert(pn * l1 == n * b * pn * wd + l2) by (nonlinear_arith)
        requires
            l1 == (n * pn * wd + wn * pd) * xd,
            l2 == wn * pd * b,
            b == xd * pn,
    ;
    assert(pn * r1 == n * b * pn * wd + r2) by (nonlinear_arith)
        requires
            r1 == xn * (pd * wd),
            r2 == pn * m * wd,
            a == xn * pd,
            a == b * n + m,
    ;
    assert((l1 < r1) == (pn * l1 < pn * r1)) by (nonlinear_arith)
        requires
            0 < pn,
    ;
    assert((l1 < r1) == (l2 < r2));
}

/// Whether position `x` lies strictly inside the barrier region of its
/// periodic cell.
pub fn barrier_at(x: &Rational, cfg: &Config) -> (r: bool)
    requires
        x.bounded(),
        cfg.wf(),
        cfg.small(),
    ensures
        r == in_barrier(*x, *cfg),
{
    proof {
        lemma_config_positive(*cfg);
        lemma_mul_bound(x.num as int, cfg.period.den as int, 0x4000_0000_0000_0000, 0x10_0000);
        lemma_mul_bound(x.den as int, cfg.period.num as int, 0x4000_0000_0000_0000, 0x10_0000);
        assert(0 < x.den * cfg.period.num) by (nonlinear_arith)
            requires
                0 < x.den,
                0 < cfg.period.num,
        ;
    }
    let a: i128 = x.num * cfg.period.den;
    let b: i128 = x.den * cfg.period.num;
    let m: i128 = euclid_rem(a, b);
    proof {
        lemma_mul_bound(cfg.width.num as int, cfg.period.den as int, 0x10_0000, 0x10_0000);
        lemma_mul_bound(
            cfg.width.num as int * cfg.period.den as int,
            b as int,
            0x10_0000int * 0x10_0000,
            0x4000_0000_0000_0000int * 0x10_0000,
        );
        lemma_mul_bound(
            cfg.period.num as int,
            m as int,
            0x10_0000,
            0x4000_0000_0000_0000int * 0x10_0000,
        );
        lemma_mul_bound(
            cfg.period.num as int * m as int,
            cfg.width.den as int,
            0x10_0000int * (0x4000_0000_0000_0000int * 0x10_0000),
            0x10_0000,
        );
    }
    let lhs: i128 = cfg.width.num * cfg.period.den * b;
    let rhs: i128 = cfg.period.num * m * cfg.width.den;
    proof {
        lemma_barrier_test(*x, *cfg, a as int, b as int, m as int);
    }
    lhs < rhs
}

/// The potential at every position of the sample grid: the barrier height
/// for positions strictly inside a barrier, zero for positions in a well or
/// exactly on a boundary.
pub fn get_potential(positions: &Vec<Rational>, cfg: &Config) -> (r: Vec<Rational>)
    requires
        forall|i: int| 0 <= i < positions@.len() ==> (#[trigger] positions@[i]).bounded(),
        cfg.wf(),
        cfg.small(),
    ensures
        is_potential_values(r@, positions@, *cfg),
{
    let mut out: Vec<Rational> = Vec::new();
    let mut i: usize = 0;
    while i < positions.len()
        invariant
            forall|k: int| 0 <= k < positions@.len() ==> (#[trigger] positions@[k]).bounded(),
            cfg.wf(),
            cfg.small(),
            i <= positions@.len(),
            out@.len() == i,
            forall|k: int|
                0 <= k < i ==> (#[trigger] out@[k]) == potential_value(positions@[k], *cfg),
        decreases positions@.len() - i,
    {
        let x = positions[i];
        if barrier_at(&x, cfg) {
            out.push(cfg.height);
        } else {
            out.push(Rational { num: 0, den: 1 });
        }
        i += 1;
    }
    out
}

/// Two-valued law: every potential value is exactly zero or exactly the
/// barrier height — never anything else.
pub proof fn lemma_potential_two_valued(r: Seq<Rational>, xs: Seq<Rational>, cfg: Config)
    requires
        is_potential_values(r, xs, cfg),
    ensures
        forall|i: int| 0 <= i < r.len() ==> r[i] == cfg.height || r[i] == rat_zero(),
{
}

/// Purity law: the description pins every element, so any two results of
/// `get_potential` for identical inputs are equal sequences.
pub proof fn lemma_potential_deterministic(
    r1: Seq<Rational>,
    r2: Seq<Rational>,
    xs: Seq<Rational>,
    cfg: Config,
)
    requires
        is_potential_values(r1, xs, cfg),
        is_potential_values(r2, xs, cfg),
    ensures
        r1 == r2,
{
    assert(r1 =~= r2);
}

} // verus!
