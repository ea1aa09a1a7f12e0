use langmuir::error::AnalysisError;
use langmuir::fit::{fit, LinearFit, Sample, Window};
use langmuir::ratio::Ratio;

/// The rational `r` has the value `n / d`.
fn has_value(r: Ratio, n: i128, d: i128) -> bool {
    r.num * d == n * r.den
}

fn sample(xn: i128, xd: i128, yn: i128, yd: i128) -> Sample {
    Sample::new(Ratio::new(xn, xd), Ratio::new(yn, yd))
}

fn int_samples(points: &[(i128, i128)]) -> Vec<Sample> {
    points
        .iter()
        .map(|&(x, y)| Sample::new(Ratio::from_int(x), Ratio::from_int(y)))
        .collect()
}

#[test]
fn fit_matches_hand_computed_ols() {
    // x: 0,1,2,3; y: 1,3,5,8. Sx=6, Sy=17, Sxy=37, Sxx=14.
    // slope = (4*37 - 6*17)/(4*14 - 36) = 46/20, intercept = (17 - slope*6)/4 = 4/5.
    let data = int_samples(&[(0, 1), (1, 3), (2, 5), (3, 8)]);
    let f = fit(&data, Window::new(0, 4)).unwrap();
    assert!(has_value(f.slope, 46, 20));
    assert!(has_value(f.intercept, 4, 5));
}

#[test]
fn fit_matches_polyfit_reference() {
    let data = int_samples(&[(0, 1), (1, 3), (2, 5), (3, 8), (4, 9)]);
    let f = fit(&data, Window::new(0, 5)).unwrap();
    let xs: Vec<f64> = (0..5).map(|i| i as f64).collect();
    let ys = vec![1.0, 3.0, 5.0, 8.0, 9.0];
    let coeffs = polyfit_rs::polyfit_rs::polyfit(&xs, &ys, 1).unwrap();
    let slope = f.slope.num as f64 / f.slope.den as f64;
    let intercept = f.intercept.num as f64 / f.intercept.den as f64;
    assert!((slope - coeffs[1]).abs() < 1e-6);
    assert!((intercept - coeffs[0]).abs() < 1e-6);
}

#[test]
fn fit_on_fractional_samples() {
    // Two points (1/2, 1) and (3/2, 2): slope 1, intercept 1/2.
    let data = vec![sample(1, 2, 1, 1), sample(3, 2, 2, 1)];
    let f = fit(&data, Window::new(0, 2)).unwrap();
    assert!(has_value(f.slope, 1, 1));
    assert!(has_value(f.intercept, 1, 2));
}

#[test]
fn fit_twice_is_bitwise_identical() {
    let data = int_samples(&[(0, 2), (1, 4), (2, 6), (3, 9)]);
    let f1 = fit(&data, Window::new(0, 4)).unwrap();
    let f2 = fit(&data, Window::new(0, 4)).unwrap();
    assert_eq!(f1, f2);
    let g1: LinearFit = fit(&data, Window::new(1, 4)).unwrap();
    let g2: LinearFit = fit(&data, Window::new(1, 4)).unwrap();
    assert_eq!(g1, g2);
}

#[test]
fn two_point_window_interpolates_exactly() {
    // (1,5) and (3,9): the fit passes exactly through both points.
    let data = int_samples(&[(1, 5), (3, 9)]);
    let f = fit(&data, Window::new(0, 2)).unwrap();
    assert!(has_value(f.slope, 2, 1));
    assert!(has_value(f.intercept, 3, 1));
    for s in &data {
        // residual: y - (slope*x + intercept) must be exactly zero
        let yhat = f.slope.mul(s.x).unwrap().add(f.intercept).unwrap();
        assert!(yhat.num * s.y.den == s.y.num * yhat.den);
    }
}

#[test]
fn identical_x_values_are_singular() {
    let data = int_samples(&[(2, 1), (2, 3), (2, 7)]);
    let r = fit(&data, Window::new(0, 3));
    assert_eq!(r, Err(AnalysisError::SingularFit));
}

#[test]
fn window_of_fewer_than_two_samples_is_insufficient() {
    let data = int_samples(&[(0, 1), (1, 2)]);
    assert_eq!(fit(&data, Window::new(0, 1)), Err(AnalysisError::InsufficientData));
    assert_eq!(fit(&data, Window::new(2, 2)), Err(AnalysisError::InsufficientData));
}

#[test]
fn huge_values_report_out_of_range() {
    let data = vec![
        Sample::new(Ratio::from_int(1), Ratio::from_int(i128::MAX)),
        Sample::new(Ratio::from_int(2), Ratio::from_int(i128::MAX)),
    ];
    assert_eq!(fit(&data, Window::new(0, 2)), Err(AnalysisError::OutOfRange));
}
