use kronig_penney::analysis::{compute_values, AnalysisPoint};
use kronig_penney::grid::generate_linear_array;
use kronig_penney::potential::{get_potential, Config};
use kronig_penney::rational::Rational;

fn rat(num: i128, den: i128) -> Rational {
    Rational { num, den }
}

fn to_f64(q: &Rational) -> f64 {
    q.num as f64 / q.den as f64
}

#[test]
fn repeated_calls_are_bit_identical() {
    let cfg = Config::default();
    let xs1 = generate_linear_array(&rat(-10, 1), &rat(11, 1), 1000);
    let xs2 = generate_linear_array(&rat(-10, 1), &rat(11, 1), 1000);
    assert_eq!(xs1, xs2);
    let v1 = get_potential(&xs1, &cfg);
    let v2 = get_potential(&xs1, &cfg);
    assert_eq!(v1, v2);
    let y1 = compute_values(&xs1, &rat(1, 1));
    let y2 = compute_values(&xs1, &rat(1, 1));
    assert_eq!(y1, y2);
}

#[test]
fn end_to_end_default_run() {
    // the run the program performs: 1000 samples from -10 to 11, both models
    let cfg = Config::default();
    let xs = generate_linear_array(&rat(-10, 1), &rat(11, 1), 1000);
    assert_eq!(xs.len(), 1000);
    // a valid, non-degenerate coordinate range for the renderer
    assert!(xs[0].lt_value(&xs[999]));

    let v = get_potential(&xs, &cfg);
    assert_eq!(v.len(), 1000);
    for value in &v {
        // every point fits the fixed potential plot range [-0.5, 1.5]
        let f = to_f64(value);
        assert!(-0.5 <= f && f <= 1.5);
    }

    let y = compute_values(&xs, &rat(1, 1));
    assert_eq!(y.len(), 1000);
    for (point, x) in y.iter().zip(xs.iter()) {
        let value = match point {
            AnalysisPoint::Limit(v) => to_f64(v),
            AnalysisPoint::Formula(p) => {
                assert_eq!(p, x);
                let xf = to_f64(p);
                1.0 * (xf.sin() / xf) + xf.cos()
            },
        };
        assert!(value.is_finite());
    }
}
