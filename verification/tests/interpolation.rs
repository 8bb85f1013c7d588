//! Interpolation behaviour: exactness at the samples, affine reproduction,
//! determinism, and a concrete one-dimensional scenario.

use noisy_float::types::r64;
use rbf_scatter::basis::Basis;
use rbf_scatter::scalar::Real;
use rbf_scatter::scatter::Scatter;

fn sc(x: f64) -> Real {
    Real { inner: r64(x) }
}

fn raw(x: Real) -> f64 {
    x.inner.raw()
}

fn row(xs: &[f64]) -> Vec<Real> {
    xs.iter().map(|&x| sc(x)).collect()
}

fn mat(xs: &[&[f64]]) -> Vec<Vec<Real>> {
    xs.iter().map(|r| row(r)).collect()
}

fn build(centers: &[&[f64]], vals: &[&[f64]], basis: Basis, order: usize) -> Scatter {
    match Scatter::create(mat(centers), mat(vals), basis, order) {
        Ok(s) => s,
        Err(e) => panic!("construction failed: {:?}", e),
    }
}

fn eval_raw(s: &Scatter, p: &[f64]) -> Vec<f64> {
    match s.eval(&row(p)) {
        Ok(v) => v.iter().map(|&x| raw(x)).collect(),
        Err(e) => panic!("evaluation failed: {:?}", e),
    }
}

fn assert_close(got: &[f64], want: &[f64], tol: f64) {
    assert_eq!(got.len(), want.len());
    for i in 0..got.len() {
        assert!(
            (got[i] - want[i]).abs() <= tol,
            "entry {}: got {}, want {}",
            i,
            got[i],
            want[i]
        );
    }
}

fn assert_exact_at_samples(centers: &[&[f64]], vals: &[&[f64]], basis: Basis, order: usize) {
    let s = build(centers, vals, basis, order);
    for (c, v) in centers.iter().zip(vals.iter()) {
        assert_close(&eval_raw(&s, c), v, 1e-9);
    }
}

#[test]
fn exactness_polyharmonic_one_order_zero() {
    assert_exact_at_samples(
        &[&[0.0], &[1.0], &[2.5]],
        &[&[1.0], &[3.0], &[2.0]],
        Basis::PolyHarmonic(1),
        0,
    );
}

#[test]
fn exactness_polyharmonic_two_order_one() {
    assert_exact_at_samples(
        &[&[0.0], &[1.0], &[2.5]],
        &[&[1.0], &[3.0], &[2.0]],
        Basis::PolyHarmonic(2),
        1,
    );
}

#[test]
fn exactness_polyharmonic_three_order_two() {
    assert_exact_at_samples(
        &[&[0.0], &[1.0], &[2.0], &[3.5]],
        &[&[1.0], &[3.0], &[2.0], &[-1.0]],
        Basis::PolyHarmonic(3),
        2,
    );
}

#[test]
fn exactness_gaussian_two_dimensional() {
    assert_exact_at_samples(
        &[&[0.0, 0.0], &[1.0, 0.0], &[0.0, 1.0], &[1.0, 1.0]],
        &[&[1.0, -1.0], &[2.0, 0.5], &[0.0, 3.0], &[4.0, 1.5]],
        Basis::Gaussian(sc(1.0)),
        0,
    );
}

#[test]
fn exactness_multiquadric_two_dimensional() {
    assert_exact_at_samples(
        &[&[0.0, 0.0], &[1.0, 0.0], &[0.0, 1.0], &[1.0, 1.0]],
        &[&[1.0], &[2.0], &[0.0], &[4.0]],
        Basis::MultiQuadric(sc(1.0)),
        0,
    );
}

#[test]
fn exactness_inverse_multiquadric_two_dimensional() {
    assert_exact_at_samples(
        &[&[0.0, 0.0], &[1.0, 0.0], &[0.0, 1.0], &[1.0, 1.0]],
        &[&[1.0], &[2.0], &[0.0], &[4.0]],
        Basis::InverseMultiQuadric(sc(1.0)),
        0,
    );
}

fn affine(x: f64, y: f64) -> Vec<f64> {
    vec![2.0 * x - y + 1.0, x + 3.0 * y - 2.0]
}

fn assert_affine_reproduction(basis: Basis) {
    let centers: [&[f64]; 5] = [&[0.0, 0.0], &[2.0, 0.0], &[0.0, 3.0], &[2.0, 2.0], &[1.0, 1.0]];
    let vals: Vec<Vec<f64>> = centers.iter().map(|c| affine(c[0], c[1])).collect();
    let val_rows: Vec<&[f64]> = vals.iter().map(|v| v.as_slice()).collect();
    let s = build(&centers, &val_rows, basis, 2);
    for p in [[0.5, 0.8], [1.7, 2.1], [-1.0, 4.0]] {
        assert_close(&eval_raw(&s, &p), &affine(p[0], p[1]), 1e-6);
    }
}

#[test]
fn affine_reproduction_polyharmonic() {
    assert_affine_reproduction(Basis::PolyHarmonic(2));
}

#[test]
fn affine_reproduction_gaussian() {
    assert_affine_reproduction(Basis::Gaussian(sc(2.0)));
}

#[test]
fn concrete_scenario_polyharmonic_line() {
    let s = build(
        &[&[0.0], &[1.0], &[2.0]],
        &[&[0.0], &[1.0], &[4.0]],
        Basis::PolyHarmonic(1),
        1,
    );
    assert_close(&eval_raw(&s, &[0.0]), &[0.0], 1e-9);
    assert_close(&eval_raw(&s, &[1.0]), &[1.0], 1e-9);
    assert_close(&eval_raw(&s, &[2.0]), &[4.0], 1e-9);
    let mid = eval_raw(&s, &[0.5]);
    assert_eq!(mid.len(), 1);
    assert!(mid[0].is_finite());
    assert!(0.0 < mid[0] && mid[0] < 1.0, "midpoint value {}", mid[0]);
}

#[test]
fn determinism_repeated_evaluation() {
    let s = build(
        &[&[0.0, 0.0], &[1.0, 0.0], &[0.0, 1.0]],
        &[&[1.0, 2.0], &[3.0, 4.0], &[5.0, 6.0]],
        Basis::Gaussian(sc(1.0)),
        1,
    );
    let p = row(&[0.3, 0.7]);
    let first = match s.eval(&p) {
        Ok(v) => v,
        Err(e) => panic!("evaluation failed: {:?}", e),
    };
    let second = match s.eval(&p) {
        Ok(v) => v,
        Err(e) => panic!("evaluation failed: {:?}", e),
    };
    assert_eq!(first.len(), second.len());
    for i in 0..first.len() {
        assert_eq!(raw(first[i]).to_bits(), raw(second[i]).to_bits());
    }
}

#[test]
fn multiple_output_channels_kept_in_order() {
    let s = build(
        &[&[0.0], &[2.0]],
        &[&[1.0, 10.0, 100.0], &[2.0, 20.0, 200.0]],
        Basis::PolyHarmonic(1),
        0,
    );
    assert_close(&eval_raw(&s, &[0.0]), &[1.0, 10.0, 100.0], 1e-9);
    assert_close(&eval_raw(&s, &[2.0]), &[2.0, 20.0, 200.0], 1e-9);
}

#[test]
fn construction_determinism() {
    let make = || {
        build(
            &[&[0.0, 0.0], &[1.0, 0.0], &[0.0, 1.0], &[2.0, 2.0]],
            &[&[1.0], &[2.0], &[3.0], &[4.0]],
            Basis::MultiQuadric(sc(1.5)),
            2,
        )
    };
    let first = make();
    let second = make();
    assert_eq!(first.deltas.len(), second.deltas.len());
    for (r1, r2) in first.deltas.iter().zip(second.deltas.iter()) {
        assert_eq!(r1.len(), r2.len());
        for (a, b) in r1.iter().zip(r2.iter()) {
            assert_eq!(raw(*a).to_bits(), raw(*b).to_bits());
        }
    }
}
