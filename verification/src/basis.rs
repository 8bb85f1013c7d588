//! The radial basis function families and their scalar evaluation.

use vstd::prelude::*;

use crate::scalar::{
    Real, powi_model, radd, radd_of, rdiv, rdiv_of, rexp, rexp_rel, rhypot, rhypot_rel, rint,
    rint_of, rlt, rlt_of, rln, rln_rel, rmul, rmul_of, rneg, rneg_of, rpowf, rpowf_rel, rpowi,
};

verus! {

/// A family of radial basis functions: a pure scalar function of a
/// non-negative distance, tagged by its kind.
#[derive(Clone, Copy)]
pub enum Basis {
    /// `r^n * ln(r)` for even `n` (zero below [`tiny_radius`]); `r` for
    /// `n == 1`; `r^n` for other odd `n`.
    PolyHarmonic(i32),
    /// `exp(-(r/c)^2)` with shape parameter `c`.
    Gaussian(Real),
    /// `sqrt(r^2 + c^2)`, computed as a stable hypotenuse.
    MultiQuadric(Real),
    /// `(r^2 + c^2)^(-1/2)`.
    InverseMultiQuadric(Real),
}

/// The radius below which an even polyharmonic spline evaluates to exactly
/// zero, avoiding the indeterminate `0 * ln(0)` at the origin: `10^-12`.
pub open spec fn tiny_radius() -> Real {
    rdiv_of(rint_of(1), rmul_of(rint_of(1000000), rint_of(1000000)))
}

/// The negated one-half exponent of the inverse multiquadric.
pub open spec fn neg_half() -> Real {
    rdiv_of(rint_of(-1i32), rint_of(2))
}

/// The permitted outcomes of [`Basis::eval`] for a kind and a radius. Every
/// branch built from the IEEE-determined operations pins `y` exactly; the
/// branches that pass through std's transcendental functions, whose
/// precision std leaves unspecified, constrain `y` to be an outcome of that
/// call on the stated operands and can say no more.
pub open spec fn basis_eval_rel(b: Basis, r: Real, y: Real) -> bool {
    match b {
        Basis::PolyHarmonic(n) => if n % 2 == 0 {
            if rlt_of(r, tiny_radius()) {
                y == rint_of(0)
            } else {
                exists|l: Real| #[trigger] rln_rel(r, l) && y == rmul_of(powi_model(r, n as int), l)
            }
        } else if n == 1 {
            y == r
        } else {
            y == powi_model(r, n as int)
        },
        Basis::Gaussian(c) => rexp_rel(rneg_of(powi_model(rdiv_of(r, c), 2)), y),
        Basis::MultiQuadric(c) => rhypot_rel(r, c, y),
        Basis::InverseMultiQuadric(c) => rpowf_rel(
            radd_of(rmul_of(r, r), rmul_of(c, c)),
            neg_half(),
            y,
        ),
    }
}

/// Whether the shape parameter of a basis kind is valid: the Gaussian,
/// multiquadric and inverse multiquadric require a strictly positive scale;
/// the polyharmonic family has no scale.
pub open spec fn param_ok_model(b: Basis) -> bool {
    match b {
        Basis::PolyHarmonic(_) => true,
        Basis::Gaussian(c) => rlt_of(rint_of(0), c),
        Basis::MultiQuadric(c) => rlt_of(rint_of(0), c),
        Basis::InverseMultiQuadric(c) => rlt_of(rint_of(0), c),
    }
}

/// Polyharmonic origin safety: for an even order, every outcome permitted
/// for a radius below the tiny threshold is exactly the zero scalar, so no
/// indeterminate `0 * ln(0)` arises at the origin.
pub proof fn lemma_polyharmonic_origin(n: i32, r: Real, y: Real)
    requires
        n % 2 == 0,
        rlt_of(r, tiny_radius()),
        basis_eval_rel(Basis::PolyHarmonic(n), r, y),
    ensures
        y == rint_of(0),
{
}

/// For an odd polyharmonic order the evaluation uses only IEEE-determined
/// operations, so the permitted outcome is unique: the basis function is a
/// fixed function of the radius.
pub proof fn lemma_polyharmonic_odd_deterministic(n: i32, r: Real, y1: Real, y2: Real)
    requires
        n % 2 != 0,
        basis_eval_rel(Basis::PolyHarmonic(n), r, y1),
        basis_eval_rel(Basis::PolyHarmonic(n), r, y2),
    ensures
        y1 == y2,
{
}

impl Basis {
    /// Evaluates the basis function at radius `r`.
    pub fn eval(&self, r: Real) -> (y: Real)
        ensures
            basis_eval_rel(*self, r, y),
    {
        match self {
            Basis::PolyHarmonic(n) => {
                if *n % 2 == 0 {
                    let tiny = rdiv(rint(1), rmul(rint(1000000), rint(1000000)));
                    if rlt(r, tiny) {
                        rint(0)
                    } else {
                        let l = rln(r);
                        let y = rmul(rpowi(r, *n), l);
                        proof {
                            assert(rln_rel(r, l) && y == rmul_of(powi_model(r, *n as int), l));
                        }
                        y
                    }
                } else if *n == 1 {
                    r
                } else {
                    rpowi(r, *n)
                }
            },
            Basis::Gaussian(c) => rexp(rneg(rpowi(rdiv(r, *c), 2))),
            Basis::MultiQuadric(c) => rhypot(r, *c),
            Basis::InverseMultiQuadric(c) => {
                rpowf(radd(rmul(r, r), rmul(*c, *c)), rdiv(rint(-1), rint(2)))
            },
        }
    }

    /// Whether the shape parameter is valid for this kind.
    pub fn param_ok(&self) -> (ok: bool)
        ensures
            ok == param_ok_model(*self),
    {
        match self {
            Basis::PolyHarmonic(_) => true,
            Basis::Gaussian(c) => rlt(rint(0), *c),
            Basis::MultiQuadric(c) => rlt(rint(0), *c),
            Basis::InverseMultiQuadric(c) => rlt(rint(0), *c),
        }
    }
}

} // verus!
