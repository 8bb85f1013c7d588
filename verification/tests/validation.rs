//! Input validation, failure kinds, the basis-function edge cases, the
//! shared slot, and the scalar operations.

use noisy_float::types::r64;
use rbf_scatter::basis::Basis;
use rbf_scatter::error::Error;
use rbf_scatter::linalg::{dist, dot, solve, transpose};
use rbf_scatter::scalar::Real;
use rbf_scatter::scatter::Scatter;
use rbf_scatter::slot::CurrentSlot;

fn sc(x: f64) -> Real {
    Real { inner: r64(x) }
}

fn raw(x: Real) -> f64 {
    x.inner.raw()
}

fn row(xs: &[f64]) -> Vec<Real> {
    xs.iter().map(|&x| sc(x)).collect()
}

fn mat(xs: &[&[f64]]) -> Vec<Vec<Real>> {
    xs.iter().map(|r| row(r)).collect()
}

#[test]
fn polyharmonic_even_origin_is_exactly_zero() {
    let b = Basis::PolyHarmonic(2);
    let at_zero = b.eval(sc(0.0));
    assert_eq!(raw(at_zero), 0.0);
    assert!(!raw(at_zero).is_nan());
    let below_threshold = b.eval(sc(1e-13));
    assert_eq!(raw(below_threshold), 0.0);
    let above_threshold = b.eval(sc(0.5));
    assert!(raw(above_threshold) != 0.0);
    assert!(raw(above_threshold).is_finite());
}

#[test]
fn basis_formulas_give_expected_values() {
    // r for the linear polyharmonic spline.
    assert_eq!(raw(Basis::PolyHarmonic(1).eval(sc(2.5))), 2.5);
    // r^3 for the cubic one.
    assert_eq!(raw(Basis::PolyHarmonic(3).eval(sc(2.0))), 8.0);
    // exp(-(r/c)^2) for the Gaussian.
    let g = raw(Basis::Gaussian(sc(2.0)).eval(sc(2.0)));
    assert!((g - (-1.0f64).exp()).abs() < 1e-15);
    // sqrt(r^2 + c^2) for the multiquadric.
    assert_eq!(raw(Basis::MultiQuadric(sc(4.0)).eval(sc(3.0))), 5.0);
    // (r^2 + c^2)^(-1/2) for the inverse multiquadric.
    assert_eq!(raw(Basis::InverseMultiQuadric(sc(4.0)).eval(sc(3.0))), 0.2);
}

#[test]
fn gaussian_zero_scale_is_invalid_parameter() {
    let res = Scatter::create(
        mat(&[&[0.0], &[1.0]]),
        mat(&[&[1.0], &[2.0]]),
        Basis::Gaussian(sc(0.0)),
        0,
    );
    assert!(matches!(res, Err(Error::InvalidBasisParameter)));
}

#[test]
fn negative_scales_are_invalid_parameters() {
    let res = Scatter::create(
        mat(&[&[0.0], &[1.0]]),
        mat(&[&[1.0], &[2.0]]),
        Basis::MultiQuadric(sc(-1.0)),
        0,
    );
    assert!(matches!(res, Err(Error::InvalidBasisParameter)));
    let res2 = Scatter::create(
        mat(&[&[0.0], &[1.0]]),
        mat(&[&[1.0], &[2.0]]),
        Basis::InverseMultiQuadric(sc(0.0)),
        0,
    );
    assert!(matches!(res2, Err(Error::InvalidBasisParameter)));
}

#[test]
fn coincident_centers_are_singular() {
    let res = Scatter::create(
        mat(&[&[1.0, 2.0], &[1.0, 2.0]]),
        mat(&[&[1.0], &[2.0]]),
        Basis::PolyHarmonic(1),
        0,
    );
    assert!(matches!(res, Err(Error::SingularSystem)));
}

#[test]
fn coincident_centers_with_constant_term_are_singular() {
    let res = Scatter::create(
        mat(&[&[0.0], &[0.0], &[1.0]]),
        mat(&[&[1.0], &[1.0], &[2.0]]),
        Basis::PolyHarmonic(1),
        1,
    );
    assert!(matches!(res, Err(Error::SingularSystem)));
}

#[test]
fn dimension_guard_on_evaluation() {
    let s = match Scatter::create(
        mat(&[&[0.0, 0.0], &[1.0, 0.0], &[0.0, 1.0]]),
        mat(&[&[1.0], &[2.0], &[3.0]]),
        Basis::PolyHarmonic(1),
        0,
    ) {
        Ok(s) => s,
        Err(e) => panic!("construction failed: {:?}", e),
    };
    assert!(matches!(s.eval(&row(&[0.1, 0.2, 0.3])), Err(Error::DimensionMismatch)));
    assert!(matches!(s.eval(&row(&[0.1])), Err(Error::DimensionMismatch)));
    assert!(s.eval(&row(&[0.1, 0.2])).is_ok());
}

#[test]
fn unsupported_order_is_rejected() {
    let res = Scatter::create(
        mat(&[&[0.0], &[1.0]]),
        mat(&[&[1.0], &[2.0]]),
        Basis::PolyHarmonic(1),
        3,
    );
    assert!(matches!(res, Err(Error::UnsupportedOrder)));
}

#[test]
fn inconsistent_inputs_are_dimension_mismatches() {
    // No centers at all.
    let empty: Vec<Vec<Real>> = Vec::new();
    let none: Vec<Vec<Real>> = Vec::new();
    assert!(matches!(
        Scatter::create(empty, none, Basis::PolyHarmonic(1), 0),
        Err(Error::DimensionMismatch)
    ));
    // Fewer value vectors than centers.
    assert!(matches!(
        Scatter::create(mat(&[&[0.0], &[1.0]]), mat(&[&[1.0]]), Basis::PolyHarmonic(1), 0),
        Err(Error::DimensionMismatch)
    ));
    // Ragged centers.
    assert!(matches!(
        Scatter::create(
            mat(&[&[0.0, 1.0], &[1.0]]),
            mat(&[&[1.0], &[2.0]]),
            Basis::PolyHarmonic(1),
            0
        ),
        Err(Error::DimensionMismatch)
    ));
    // Ragged values.
    assert!(matches!(
        Scatter::create(
            mat(&[&[0.0], &[1.0]]),
            mat(&[&[1.0], &[2.0, 3.0]]),
            Basis::PolyHarmonic(1),
            0
        ),
        Err(Error::DimensionMismatch)
    ));
}

#[test]
fn slot_before_any_construction_is_not_initialized() {
    let slot = CurrentSlot::new();
    assert!(matches!(slot.evaluate_current(&row(&[0.0])), Err(Error::NotInitialized)));
}

#[test]
fn slot_keeps_previous_interpolant_on_failed_construction() {
    let mut slot = CurrentSlot::new();
    let s = match Scatter::create(
        mat(&[&[0.0], &[1.0]]),
        mat(&[&[5.0], &[7.0]]),
        Basis::PolyHarmonic(1),
        0,
    ) {
        Ok(s) => s,
        Err(e) => panic!("construction failed: {:?}", e),
    };
    slot.set_current(s);
    // A failing construction returns an error and never reaches the slot.
    let failed = Scatter::create(
        mat(&[&[0.0], &[0.0]]),
        mat(&[&[1.0], &[2.0]]),
        Basis::PolyHarmonic(1),
        0,
    );
    assert!(failed.is_err());
    let v = match slot.evaluate_current(&row(&[0.0])) {
        Ok(v) => v,
        Err(e) => panic!("evaluation failed: {:?}", e),
    };
    assert_eq!(v.len(), 1);
    assert!((raw(v[0]) - 5.0).abs() < 1e-9);
}

#[test]
fn polyharmonic_even_formula_above_threshold() {
    // r^2 * ln(r) at r = 0.5, with the same operation order as the library.
    let got = raw(Basis::PolyHarmonic(2).eval(sc(0.5)));
    let want = 0.5f64.powi(2) * 0.5f64.ln();
    assert_eq!(got.to_bits(), want.to_bits());
}

#[test]
fn linear_algebra_helpers_compute() {
    assert_eq!(raw(dist(&row(&[0.0, 0.0]), &row(&[3.0, 4.0]))), 5.0);
    assert_eq!(raw(dot(&row(&[1.0, 2.0]), &row(&[3.0, 4.0]))), 11.0);
    let t = transpose(&mat(&[&[1.0, 2.0], &[3.0, 4.0]]), 2, 2);
    assert_eq!(raw(t[0][1]), 3.0);
    assert_eq!(raw(t[1][0]), 2.0);
    let solved = match solve(&mat(&[&[2.0, 0.0], &[0.0, 4.0]]), &mat(&[&[2.0], &[8.0]]), 1) {
        Some(x) => x,
        None => panic!("diagonal system reported singular"),
    };
    assert_eq!(raw(solved[0][0]), 1.0);
    assert_eq!(raw(solved[1][0]), 2.0);
    assert!(solve(&mat(&[&[1.0, 1.0], &[1.0, 1.0]]), &mat(&[&[1.0], &[2.0]]), 1).is_none());
}
