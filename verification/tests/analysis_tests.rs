use kronig_penney::analysis::{compute_values, is_near_singularity, AnalysisPoint};
use kronig_penney::rational::Rational;

fn rat(num: i128, den: i128) -> Rational {
    Rational { num, den }
}

#[test]
fn limit_branch_at_zero() {
    // analysis(0.0, parameter = 1.0) == 2.0 exactly: the limit branch 1 + 1
    let r = compute_values(&vec![rat(0, 1)], &rat(1, 1));
    assert_eq!(r, vec![AnalysisPoint::Limit(rat(2, 1))]);
    match r[0] {
        AnalysisPoint::Limit(v) => {
            let value = v.num as f64 / v.den as f64;
            assert!(value == 2.0);
        },
        AnalysisPoint::Formula(_) => panic!("position zero must take the limit branch"),
    }
}

#[test]
fn limit_branch_exact_value() {
    // parameter 3/2 gives the exact limit 3/2 + 1 = 5/2
    let r = compute_values(&vec![rat(0, 1)], &rat(3, 2));
    assert_eq!(r, vec![AnalysisPoint::Limit(rat(5, 2))]);
}

#[test]
fn guard_threshold_is_exact() {
    // |x| <= 1e-10 takes the limit; |x| > 1e-10 takes the formula
    assert!(is_near_singularity(&rat(0, 1)));
    assert!(is_near_singularity(&rat(1, 10_000_000_000)));
    assert!(is_near_singularity(&rat(-1, 10_000_000_000)));
    assert!(!is_near_singularity(&rat(1, 9_999_999_999)));
    assert!(!is_near_singularity(&rat(-1, 9_999_999_999)));
    assert!(!is_near_singularity(&rat(1, 1)));

    let r = compute_values(&vec![rat(1, 10_000_000_000), rat(1, 9_999_999_999)], &rat(1, 1));
    assert_eq!(r[0], AnalysisPoint::Limit(rat(2, 1)));
    assert_eq!(r[1], AnalysisPoint::Formula(rat(1, 9_999_999_999)));
}

#[test]
fn formula_branch_hands_back_position() {
    let r = compute_values(&vec![rat(2, 1)], &rat(3, 2));
    assert_eq!(r, vec![AnalysisPoint::Formula(rat(2, 1))]);
    match r[0] {
        AnalysisPoint::Formula(x) => {
            let xf = x.num as f64 / x.den as f64;
            let value = 1.5 * (xf.sin() / xf) + xf.cos();
            // parameter * sin(2)/2 + cos(2)
            assert!((value - 0.2658262335721189).abs() < 1e-9);
        },
        AnalysisPoint::Limit(_) => panic!("position 2 lies outside the singularity guard"),
    }
}
