use kronig_penney::grid::generate_linear_array;
use kronig_penney::potential::{barrier_at, get_potential, Config};
use kronig_penney::rational::Rational;

fn rat(num: i128, den: i128) -> Rational {
    Rational { num, den }
}

#[test]
fn default_config_values() {
    let cfg = Config::default();
    assert_eq!(cfg.period, rat(2, 1));
    assert_eq!(cfg.width, rat(1, 1));
    assert_eq!(cfg.height, rat(1, 1));
}

#[test]
fn boundary_policy() {
    let cfg = Config::default();
    // strictly inside the barrier region of cell 0: 0*2+1 = 1 < 3/2 < 2
    assert!(barrier_at(&rat(3, 2), &cfg));
    // exactly on the well/barrier transition: strict comparison excludes it
    assert!(!barrier_at(&rat(1, 1), &cfg));
    // inside the well of cell 0
    assert!(!barrier_at(&rat(1, 2), &cfg));
    // exactly on a cell boundary
    assert!(!barrier_at(&rat(2, 1), &cfg));
    assert!(!barrier_at(&rat(0, 1), &cfg));
}

#[test]
fn negative_positions_use_real_floor() {
    let cfg = Config::default();
    // x = -1/2 lies in cell -1, whose barrier region is (-1, 0)
    assert!(barrier_at(&rat(-1, 2), &cfg));
    // x = -3/2 lies in the well of cell -1: [-2, -1]
    assert!(!barrier_at(&rat(-3, 2), &cfg));
    // x = -1 is exactly the transition of cell -1
    assert!(!barrier_at(&rat(-1, 1), &cfg));
}

#[test]
fn potential_values_exact() {
    let cfg = Config::default();
    let xs = vec![rat(1, 2), rat(1, 1), rat(3, 2)];
    let v = get_potential(&xs, &cfg);
    assert_eq!(v, vec![rat(0, 1), rat(0, 1), rat(1, 1)]);
}

#[test]
fn potential_is_two_valued_on_default_run() {
    let cfg = Config::default();
    let xs = generate_linear_array(&rat(-10, 1), &rat(11, 1), 1000);
    let v = get_potential(&xs, &cfg);
    assert_eq!(v.len(), xs.len());
    let mut wells: usize = 0;
    let mut barriers: usize = 0;
    for value in &v {
        if *value == rat(0, 1) {
            wells += 1;
        } else if *value == rat(1, 1) {
            barriers += 1;
        } else {
            panic!("potential produced a value other than 0 or the barrier height");
        }
    }
    assert_eq!(wells + barriers, 1000);
    assert!(wells > 0);
    assert!(barriers > 0);
}

#[test]
fn custom_config_geometry() {
    // period 3, barrier width 1/2: barrier region of cell 0 is (1/2, 3)
    let cfg = Config { period: rat(3, 1), width: rat(1, 2), height: rat(5, 1) };
    assert!(barrier_at(&rat(1, 1), &cfg));
    assert!(!barrier_at(&rat(1, 2), &cfg));
    assert!(!barrier_at(&rat(1, 4), &cfg));
    let v = get_potential(&vec![rat(1, 1)], &cfg);
    assert_eq!(v, vec![rat(5, 1)]);
}
