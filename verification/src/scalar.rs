//! Scalar arithmetic for the interpolation core.
//!
//! A [`Real`] is an IEEE-754 double-precision value, held behind
//! `noisy_float::types::R64` and opaque to the verifier. Every arithmetic
//! operation is a trusted wrapper. The operations whose results IEEE 754
//! determines (the basic five, `sqrt`, the comparisons and the integer
//! conversion) are pinned to uninterpreted names, so each is a fixed
//! function of its operands. The transcendental operations (`ln`, `exp`,
//! `powf`, `hypot`) have unspecified precision in std — their results may
//! vary between platforms and even between invocations — so each carries
//! only an uninterpreted relation between operands and result, and nothing
//! proved here treats them as deterministic. Every wrapper builds its
//! result with `R64::unchecked_new`, which never panics, so the wrappers
//! are total.

use vstd::prelude::*;
use noisy_float::types::R64;

verus! {

/// An IEEE-754 double-precision scalar. The verifier sees it as an opaque
/// value; callers outside the verified crate may build one from a raw
/// `noisy_float::types::R64` through the `inner` field.
#[verifier::external_body]
pub struct Real {
    pub inner: R64,
}

impl Clone for Real {
    /// Relies on the bitwise copy of a plain double value.
    #[verifier::external_body]
    fn clone(&self) -> (r: Self)
        ensures
            r == *self,
    {
        Real { inner: self.inner }
    }
}

impl Copy for Real {

}

pub uninterp spec fn rint_of(i: i32) -> Real;

pub uninterp spec fn radd_of(a: Real, b: Real) -> Real;

pub uninterp spec fn rsub_of(a: Real, b: Real) -> Real;

pub uninterp spec fn rmul_of(a: Real, b: Real) -> Real;

pub uninterp spec fn rdiv_of(a: Real, b: Real) -> Real;

pub uninterp spec fn rneg_of(a: Real) -> Real;

pub uninterp spec fn rsqrt_of(a: Real) -> Real;

pub uninterp spec fn rln_rel(a: Real, r: Real) -> bool;

pub uninterp spec fn rexp_rel(a: Real, r: Real) -> bool;

pub uninterp spec fn rpowf_rel(a: Real, b: Real, r: Real) -> bool;

pub uninterp spec fn rhypot_rel(a: Real, b: Real, r: Real) -> bool;

pub uninterp spec fn rlt_of(a: Real, b: Real) -> bool;

pub uninterp spec fn reqv_of(a: Real, b: Real) -> bool;

/// Relies on `R64::unchecked_new` and std's exact widening conversion from
/// 32-bit integers to double precision: the result depends on `i` alone.
#[verifier::external_body]
pub(crate) fn rint(i: i32) -> (r: Real)
    ensures
        r == rint_of(i),
{
    Real { inner: R64::unchecked_new(i.into()) }
}

/// Relies on std's IEEE-754 double addition, reached through
/// `NoisyFloat::raw` and `R64::unchecked_new`: a deterministic function of
/// the two operands.
#[verifier::external_body]
pub(crate) fn radd(a: Real, b: Real) -> (r: Real)
    ensures
        r == radd_of(a, b),
{
    Real { inner: R64::unchecked_new(a.inner.raw() + b.inner.raw()) }
}

/// Relies on std's IEEE-754 double subtraction, reached through
/// `NoisyFloat::raw` and `R64::unchecked_new`.
#[verifier::external_body]
pub(crate) fn rsub(a: Real, b: Real) -> (r: Real)
    ensures
        r == rsub_of(a, b),
{
    Real { inner: R64::unchecked_new(a.inner.raw() - b.inner.raw()) }
}

/// Relies on std's IEEE-754 double multiplication, reached through
/// `NoisyFloat::raw` and `R64::unchecked_new`.
#[verifier::external_body]
pub(crate) fn rmul(a: Real, b: Real) -> (r: Real)
    ensures
        r == rmul_of(a, b),
{
    Real { inner: R64::unchecked_new(a.inner.raw() * b.inner.raw()) }
}

/// Relies on std's IEEE-754 double division, reached through
/// `NoisyFloat::raw` and `R64::unchecked_new`.
#[verifier::external_body]
pub(crate) fn rdiv(a: Real, b: Real) -> (r: Real)
    ensures
        r == rdiv_of(a, b),
{
    Real { inner: R64::unchecked_new(a.inner.raw() / b.inner.raw()) }
}

/// Relies on std's IEEE-754 double negation, reached through
/// `NoisyFloat::raw` and `R64::unchecked_new`.
#[verifier::external_body]
pub(crate) fn rneg(a: Real) -> (r: Real)
    ensures
        r == rneg_of(a),
{
    Real { inner: R64::unchecked_new(-a.inner.raw()) }
}

/// Relies on std's `sqrt` for doubles, reached through `NoisyFloat::raw`
/// and `R64::unchecked_new`: correctly rounded, a function of `a` alone.
#[verifier::external_body]
pub(crate) fn rsqrt(a: Real) -> (r: Real)
    ensures
        r == rsqrt_of(a),
{
    Real { inner: R64::unchecked_new(a.inner.raw().sqrt()) }
}

/// Relies on std's `ln` for doubles, reached through `NoisyFloat::raw` and
/// `R64::unchecked_new`. std documents its precision as unspecified — the
/// result may differ between platforms and even between invocations — so
/// nothing pins it as a function of `a`; the relation records only that
/// `r` is an outcome this call may return for `a`.
#[verifier::external_body]
pub(crate) fn rln(a: Real) -> (r: Real)
    ensures
        rln_rel(a, r),
{
    Real { inner: R64::unchecked_new(a.inner.raw().ln()) }
}

/// Relies on std's `exp` for doubles, reached through `NoisyFloat::raw` and
/// `R64::unchecked_new`. Its precision is unspecified, as for `ln`, so the
/// relation records only that `r` is an outcome this call may return.
#[verifier::external_body]
pub(crate) fn rexp(a: Real) -> (r: Real)
    ensures
        rexp_rel(a, r),
{
    Real { inner: R64::unchecked_new(a.inner.raw().exp()) }
}

/// Relies on std's `powf` for doubles, reached through `NoisyFloat::raw`
/// and `R64::unchecked_new`. Its precision is unspecified, as for `ln`, so
/// the relation records only that `r` is an outcome this call may return
/// for the base and the exponent.
#[verifier::external_body]
pub(crate) fn rpowf(a: Real, b: Real) -> (r: Real)
    ensures
        rpowf_rel(a, b, r),
{
    Real { inner: R64::unchecked_new(a.inner.raw().powf(b.inner.raw())) }
}

/// Relies on std's `hypot` for doubles (the stable hypotenuse
/// `sqrt(a^2 + b^2)`), reached through `NoisyFloat::raw` and
/// `R64::unchecked_new`. Its precision is unspecified, as for `ln`, so the
/// relation records only that `r` is an outcome this call may return for
/// the two operands.
#[verifier::external_body]
pub(crate) fn rhypot(a: Real, b: Real) -> (r: Real)
    ensures
        rhypot_rel(a, b, r),
{
    Real { inner: R64::unchecked_new(a.inner.raw().hypot(b.inner.raw())) }
}

/// Relies on std's IEEE-754 ordered comparison for doubles, reached through
/// `NoisyFloat::raw`: a function of the two operands alone.
#[verifier::external_body]
pub(crate) fn rlt(a: Real, b: Real) -> (r: bool)
    ensures
        r == rlt_of(a, b),
{
    a.inner.raw() < b.inner.raw()
}

/// Relies on std's IEEE-754 equality for doubles, reached through
/// `NoisyFloat::raw`: a function of the two operands alone.
#[verifier::external_body]
pub(crate) fn reqv(a: Real, b: Real) -> (r: bool)
    ensures
        r == reqv_of(a, b),
{
    a.inner.raw() == b.inner.raw()
}

/// `a` multiplied onto one, `k` times: the deterministic power used in
/// place of std's `powi`, whose precision is unspecified.
pub open spec fn pow_nat_model(a: Real, k: nat) -> Real
    decreases k,
{
    if k == 0 {
        rint_of(1)
    } else {
        rmul_of(pow_nat_model(a, (k - 1) as nat), a)
    }
}

/// `a` raised to the integer `n`: repeated multiplication, with the
/// reciprocal for a negative exponent.
pub open spec fn powi_model(a: Real, n: int) -> Real {
    if n >= 0 {
        pow_nat_model(a, n as nat)
    } else {
        rdiv_of(rint_of(1), pow_nat_model(a, (-n) as nat))
    }
}

/// Computes `a` to the power `n` by repeated multiplication over the
/// trusted product, so the result is a verified deterministic function of
/// the operands.
pub(crate) fn rpowi(a: Real, n: i32) -> (r: Real)
    ensures
        r == powi_model(a, n as int),
{
    let k: i64 = if n < 0 {
        -(n as i64)
    } else {
        n as i64
    };
    let mut acc = rint(1);
    let mut i: i64 = 0;
    while i < k
        invariant
            0 <= i <= k,
            k == (if n < 0 { -(n as int) } else { n as int }),
            acc == pow_nat_model(a, i as nat),
        decreases k - i,
    {
        acc = rmul(acc, a);
        i += 1;
    }
    if n < 0 {
        rdiv(rint(1), acc)
    } else {
        acc
    }
}

} // verus!
