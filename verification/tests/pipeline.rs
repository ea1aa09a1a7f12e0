use langmuir::curve::reconstruct;
use langmuir::error::AnalysisError;
use langmuir::fit::{LinearFit, Sample, Window};
use langmuir::params::PlasmaParams;
use langmuir::pipeline::analyze;
use langmuir::ratio::Ratio;
use langmuir::reference::reference_level;

/// The rational `r` has the value `n / d`.
fn has_value(r: Ratio, n: i128, d: i128) -> bool {
    r.num * d == n * r.den
}

fn int_samples(points: &[(i128, i128)]) -> Vec<Sample> {
    points
        .iter()
        .map(|&(x, y)| Sample::new(Ratio::from_int(x), Ratio::from_int(y)))
        .collect()
}

#[test]
fn reconstruct_spans_whole_domain() {
    let f = LinearFit { intercept: Ratio::from_int(3), slope: Ratio::new(1, 2) };
    let domain: Vec<Ratio> = vec![
        Ratio::from_int(-2),
        Ratio::from_int(0),
        Ratio::from_int(1),
        Ratio::new(7, 2),
        Ratio::from_int(10),
    ];
    let c = reconstruct(&domain, &f).unwrap();
    assert_eq!(c.len(), domain.len());
    for (i, s) in c.iter().enumerate() {
        assert_eq!(s.x, domain[i]);
        // y == slope * x + intercept, exactly
        let expect_num = domain[i].num + 6 * domain[i].den;
        let expect_den = 2 * domain[i].den;
        assert!(s.y.num * expect_den == expect_num * s.y.den);
    }
}

#[test]
fn reference_level_picks_first_exact_zero() {
    let data = int_samples(&[(-1, 7), (0, 42), (1, 9), (0, 13)]);
    let r = reference_level(&data);
    assert!(!r.defaulted);
    assert!(has_value(r.value, 42, 1));
}

#[test]
fn reference_level_defaults_to_zero_without_exact_match() {
    // No sample has x exactly 0: the value is 0 and the flag reports it.
    let data = vec![
        Sample::new(Ratio::new(-1, 2), Ratio::from_int(3)),
        Sample::new(Ratio::new(1, 1000), Ratio::from_int(5)),
    ];
    let r = reference_level(&data);
    assert!(r.defaulted);
    assert!(has_value(r.value, 0, 1));
}

#[test]
fn estimate_exact_on_perfect_square_temperature() {
    // i_sp = 2, i_sn = 2, d_i = 1, p = 3/5: temp = 1, sqrt = 1,
    // electron_density = 3e21 * 4 = 12e21, density = 12e21 / 1.5e22 = 4/5.
    let pp = PlasmaParams::new(
        Ratio::from_int(2),
        Ratio::from_int(2),
        Ratio::from_int(1),
        Ratio::new(3, 5),
    )
    .unwrap();
    assert!(has_value(pp.electron_temp, 1, 1));
    assert!(has_value(pp.electron_density, 12_000_000_000_000_000_000_000, 1));
    assert!(has_value(pp.density, 4, 5));
}

#[test]
fn estimate_approximates_irrational_square_root() {
    // i_sp = 2, i_sn = 2, d_i = 2, p = 3/5: temp = 1/2, sqrt(1/2) irrational.
    let pp = PlasmaParams::new(
        Ratio::from_int(2),
        Ratio::from_int(2),
        Ratio::from_int(2),
        Ratio::new(3, 5),
    )
    .unwrap();
    assert!(has_value(pp.electron_temp, 1, 2));
    let dens = pp.density.num as f64 / pp.density.den as f64;
    let expect = 3e21 * 4.0 / 0.5f64.sqrt() / (2.5e22 * 0.6);
    assert!((dens - expect).abs() / expect < 1e-8);
}

#[test]
fn estimate_rejects_intercepts_summing_to_zero() {
    // frontIntercept = 1, tailIntercept = -1, referenceLevel = 5.
    let r = PlasmaParams::new(
        Ratio::from_int(1),
        Ratio::from_int(-1),
        Ratio::from_int(5),
        Ratio::new(3, 5),
    );
    assert_eq!(r, Err(AnalysisError::DegenerateParameters));
}

#[test]
fn estimate_rejects_zero_reference_and_negative_temperature() {
    let p = Ratio::new(3, 5);
    // zero reference current
    let r = PlasmaParams::new(Ratio::from_int(2), Ratio::from_int(2), Ratio::from_int(0), p);
    assert_eq!(r, Err(AnalysisError::DegenerateParameters));
    // i_sp = 4, i_sn = -1: temp = (4 * -1 / 3) / 1 < 0
    let r = PlasmaParams::new(Ratio::from_int(4), Ratio::from_int(-1), Ratio::from_int(1), p);
    assert_eq!(r, Err(AnalysisError::DegenerateParameters));
}

#[test]
fn end_to_end_linear_sweep() {
    // Input [(0,2),(1,4),(2,6)], front [0,3), tail [0,3):
    // both fits are y = 2x + 2; the curves reproduce the input exactly;
    // the reference level is 2.
    let data = int_samples(&[(0, 2), (1, 4), (2, 6)]);
    let a = analyze(&data, Window::new(0, 3), Window::new(0, 3), Ratio::new(3, 5)).unwrap();
    assert!(has_value(a.front_fit.slope, 2, 1));
    assert!(has_value(a.front_fit.intercept, 2, 1));
    assert!(has_value(a.tail_fit.slope, 2, 1));
    assert!(has_value(a.tail_fit.intercept, 2, 1));
    assert_eq!(a.front_curve.len(), 3);
    assert_eq!(a.tail_curve.len(), 3);
    for (i, &(x, y)) in [(0i128, 2i128), (1, 4), (2, 6)].iter().enumerate() {
        assert!(has_value(a.front_curve[i].x, x, 1));
        assert!(has_value(a.front_curve[i].y, y, 1));
        assert!(has_value(a.tail_curve[i].x, x, 1));
        assert!(has_value(a.tail_curve[i].y, y, 1));
    }
    assert!(!a.reference.defaulted);
    assert!(has_value(a.reference.value, 2, 1));
    // downstream estimate: temp = (2*2/4)/2 = 1/2
    let pp = a.params.unwrap();
    assert!(has_value(pp.electron_temp, 1, 2));
}

#[test]
fn analyze_uses_distinct_windows() {
    // front regime y = x + 1 on the first three samples, tail regime
    // y = 3x - 9 on the last three.
    let data = int_samples(&[(0, 1), (1, 2), (2, 3), (5, 6), (6, 9), (7, 12)]);
    let a = analyze(&data, Window::new(0, 3), Window::new(3, 6), Ratio::new(3, 5)).unwrap();
    assert!(has_value(a.front_fit.slope, 1, 1));
    assert!(has_value(a.front_fit.intercept, 1, 1));
    assert!(has_value(a.tail_fit.slope, 3, 1));
    assert!(has_value(a.tail_fit.intercept, -9, 1));
    // curves span the whole domain, not just the fitted windows
    assert_eq!(a.front_curve.len(), 6);
    assert_eq!(a.tail_curve.len(), 6);
    // front line evaluated at the last x: 7 + 1 = 8
    assert!(has_value(a.front_curve[5].y, 8, 1));
    // tail line evaluated at the first x: -9
    assert!(has_value(a.tail_curve[0].y, -9, 1));
}

#[test]
fn analyze_propagates_fit_errors() {
    let data = int_samples(&[(0, 1), (1, 2), (2, 3)]);
    let r = analyze(&data, Window::new(0, 1), Window::new(0, 3), Ratio::new(3, 5));
    assert!(matches!(r, Err(AnalysisError::InsufficientData)));
    let flat = int_samples(&[(1, 1), (1, 2), (2, 3)]);
    let r = analyze(&flat, Window::new(0, 2), Window::new(0, 3), Ratio::new(3, 5));
    assert!(matches!(r, Err(AnalysisError::SingularFit)));
}
