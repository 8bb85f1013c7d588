//! The interpolant: construction of the augmented system and evaluation.

use vstd::prelude::*;
use crate::basis::{Basis, basis_eval_rel, param_ok_model};
use crate::error::Error;
use crate::linalg::{
    copy_row, dist, dist_model, dot, dot_model, is_matrix, mat_view, solve, solve_model,
    transpose, transpose_model, zero_row,
};
use crate::scalar::{
    Real, radd, radd_of, rdiv, rdiv_of, rint, rint_of, rmul, rmul_of, rsub, rsub_of,
};

verus! {

/// The number of rows of the augmented system: the `n` radial rows, plus a
/// constant row for order one, plus `d` affine rows for order two.
pub open spec fn naug_model(order: int, n: int, d: int) -> int {
    if order == 0 {
        n
    } else if order == 1 {
        n + 1
    } else {
        n + 1 + d
    }
}

/// The length of the first row, or zero for an empty matrix.
pub open spec fn first_len(s: Seq<Vec<Real>>) -> int {
    if s.len() == 0 {
        0
    } else {
        s[0]@.len() as int
    }
}

/// Whether centers and values form a consistent input: at least one center,
/// one value vector per center, all centers of one dimension and all value
/// vectors of one dimension.
pub open spec fn dims_ok(centers: Seq<Vec<Real>>, vals: Seq<Vec<Real>>) -> bool {
    &&& centers.len() >= 1
    &&& vals.len() == centers.len()
    &&& forall|i: int|
        0 <= i < centers.len() ==> (#[trigger] centers[i])@.len() == centers[0]@.len()
    &&& forall|i: int| 0 <= i < vals.len() ==> (#[trigger] vals[i])@.len() == vals[0]@.len()
}

/// The left fold of coordinate `j` over the first `k` centers.
pub open spec fn coord_sum_prefix(centers: Seq<Vec<Real>>, j: int, k: int) -> Real
    decreases k,
{
    if k <= 0 {
        rint_of(0)
    } else {
        radd_of(coord_sum_prefix(centers, j, k - 1), centers[k - 1]@[j])
    }
}

/// The permitted values of the augmented system entry at `(r, c)`, for a
/// radial position on or above the diagonal or any polynomial position:
/// the radial block holds an outcome of the basis function on the distance
/// of the two centers; row and column `n` carry the constant one; the
/// affine rows and columns carry the coordinates translated by `means`;
/// the polynomial corner is zero. Radial entries below the diagonal are
/// tied to their mirror by [`system_matrix_rel`] instead.
pub open spec fn system_entry_rel(
    centers: Seq<Vec<Real>>,
    means: Seq<Real>,
    basis: Basis,
    n: int,
    r: int,
    c: int,
    y: Real,
) -> bool {
    if r < n && c < n {
        basis_eval_rel(basis, dist_model(centers[r]@, centers[c]@), y)
    } else if r < n {
        if c == n {
            y == rint_of(1)
        } else {
            y == rsub_of(centers[r]@[c - n - 1], means[c - n - 1])
        }
    } else if c < n {
        if r == n {
            y == rint_of(1)
        } else {
            y == rsub_of(centers[c]@[r - n - 1], means[r - n - 1])
        }
    } else {
        y == rint_of(0)
    }
}

/// `mat` is a system matrix the construction may assemble: square of size
/// `n_aug`, each entry on or above the diagonal (and each polynomial
/// entry) a permitted value of [`system_entry_rel`], and each radial entry
/// below the diagonal equal to its mirror, so the matrix is symmetric by
/// construction even where the basis function passes through operations of
/// unspecified precision.
pub open spec fn system_matrix_rel(
    centers: Seq<Vec<Real>>,
    means: Seq<Real>,
    basis: Basis,
    n_aug: int,
    mat: Seq<Seq<Real>>,
) -> bool {
    let n = centers.len() as int;
    &&& mat.len() == n_aug
    &&& forall|r: int| 0 <= r < n_aug ==> (#[trigger] mat[r]).len() == n_aug
    &&& forall|r: int, c: int|
        0 <= r < n_aug && 0 <= c < n_aug && (n <= r || n <= c || r <= c)
            ==> system_entry_rel(centers, means, basis, n, r, c, #[trigger] mat[r][c])
    &&& forall|r: int, c: int| 0 <= c < r < n ==> #[trigger] mat[r][c] == mat[c][r]
}

/// Any system matrix the construction may assemble is symmetric.
pub proof fn lemma_system_matrix_symmetric(
    centers: Seq<Vec<Real>>,
    means: Seq<Real>,
    basis: Basis,
    n_aug: int,
    mat: Seq<Seq<Real>>,
    r: int,
    c: int,
)
    requires
        system_matrix_rel(centers, means, basis, n_aug, mat),
        0 <= r < n_aug,
        0 <= c < n_aug,
    ensures
        mat[r][c] == mat[c][r],
{
    let n = centers.len() as int;
    if r < n && c < n {
        // the mirror clause ties the two radial entries directly
    } else {
        // both polynomial entries are pinned to the same expression
        assert(system_entry_rel(centers, means, basis, n, r, c, mat[r][c]));
        assert(system_entry_rel(centers, means, basis, n, c, r, mat[c][r]));
    }
}

/// The left fold of `means[j]` times the affine coefficient `row[n + 1 + j]`
/// over the first `k` dimensions: the translation offset that the centering
/// correction removes from the constant coefficient.
pub open spec fn offset_prefix(row: Seq<Real>, means: Seq<Real>, n: int, k: int) -> Real
    decreases k,
{
    if k <= 0 {
        rint_of(0)
    } else {
        radd_of(offset_prefix(row, means, n, k - 1), rmul_of(means[k - 1], row[n + k]))
    }
}

/// The value vectors stacked into `n_aug` rows of `m` entries, the
/// polynomial rows padded with zeros.
pub open spec fn stacked_values_model(vals: Seq<Vec<Real>>, n_aug: int, m: int) -> Seq<Seq<Real>> {
    Seq::new(
        n_aug as nat,
        |i: int|
            if i < vals.len() {
                vals[i]@
            } else {
                Seq::new(m as nat, |j: int| rint_of(0))
            },
    )
}

/// The per-dimension centroid of the centers when affine terms are present:
/// each coordinate sum scaled by the reciprocal of the center count; empty
/// for lower orders.
pub open spec fn means_model(centers: Seq<Vec<Real>>, order: int) -> Seq<Real> {
    if order == 2 {
        Seq::new(
            centers[0]@.len(),
            |j: int|
                rmul_of(
                    coord_sum_prefix(centers, j, centers.len() as int),
                    rdiv_of(rint_of(1), rint_of(centers.len() as i32)),
                ),
        )
    } else {
        Seq::empty()
    }
}

/// The coefficient rows with the centroid offset removed from each constant
/// coefficient, as [`offset_prefix`] states it; all other entries unchanged.
pub open spec fn corrected_model(deltas: Seq<Seq<Real>>, means: Seq<Real>, n: int) -> Seq<
    Seq<Real>,
> {
    Seq::new(
        deltas.len(),
        |i: int|
            Seq::new(
                deltas[i].len(),
                |t: int|
                    if t == n {
                        rsub_of(deltas[i][n], offset_prefix(deltas[i], means, n, means.len() as int))
                    } else {
                        deltas[i][t]
                    },
            ),
    )
}

/// The permitted outcomes of construction on validated inputs: there is a
/// system matrix the assembly may produce (see [`system_matrix_rel`]) such
/// that, when the Gauss-Jordan elimination of
/// [`crate::linalg::solve_model`] on it fails, the result is
/// `SingularSystem`, and when it succeeds, the result is an interpolant
/// whose coefficient matrix is exactly the transposed solution with the
/// centering correction for order two. Every step past the basis-function
/// calls is pinned, so the outcome varies only as far as std leaves the
/// transcendental operations unspecified; for the bases built from
/// IEEE-determined operations the outcome is a function of the inputs.
pub open spec fn construct_rel(
    centers: Seq<Vec<Real>>,
    vals: Seq<Vec<Real>>,
    basis: Basis,
    order: int,
    res: Result<Scatter, Error>,
) -> bool {
    let n = centers.len() as int;
    let d = centers[0]@.len() as int;
    let m = vals[0]@.len() as int;
    let n_aug = naug_model(order, n, d);
    let means = means_model(centers, order);
    exists|mat: Seq<Seq<Real>>|
        #[trigger] system_matrix_rel(centers, means, basis, n_aug, mat) && match solve_model(
            mat,
            stacked_values_model(vals, n_aug, m),
            m,
        ) {
            Option::None => res == Err::<Scatter, Error>(Error::SingularSystem),
            Option::Some(x) => {
                let solved = transpose_model(x, n_aug, m);
                let pinned = if order == 2 {
                    corrected_model(solved, means, n)
                } else {
                    solved
                };
                match res {
                    Result::Ok(s) => mat_view(s.deltas@) == pinned,
                    Result::Err(_) => false,
                }
            },
        }
}

/// An immutable interpolant: the basis kind, the sample centers, and the
/// solved coefficient matrix with one row per output channel.
pub struct Scatter {
    /// The basis-function family chosen at construction.
    pub basis: Basis,
    /// The `n` sample centers, each of dimension `d`.
    pub centers: Vec<Vec<Real>>,
    /// The coefficient matrix: `m` rows (one per output channel) of `n'`
    /// columns, where `n'` counts the radial plus polynomial terms.
    pub deltas: Vec<Vec<Real>>,
}

impl Scatter {
    /// The number of centers.
    pub open spec fn n(self) -> int {
        self.centers@.len() as int
    }

    /// The coordinate dimension.
    pub open spec fn dim(self) -> int {
        self.centers@[0]@.len() as int
    }

    /// The number of output channels.
    pub open spec fn m(self) -> int {
        self.deltas@.len() as int
    }

    /// The number of columns of the coefficient matrix.
    pub open spec fn cols(self) -> int {
        if self.deltas@.len() == 0 {
            0
        } else {
            self.deltas@[0]@.len() as int
        }
    }

    /// Well-formedness: at least one center, all centers of one dimension,
    /// a rectangular coefficient matrix whose width is the number of radial
    /// terms plus zero, one, or one plus `d` polynomial terms.
    pub open spec fn wf(self) -> bool {
        &&& self.n() >= 1
        &&& forall|i: int|
            0 <= i < self.n() ==> (#[trigger] self.centers@[i])@.len() == self.dim()
        &&& forall|i: int| 0 <= i < self.m() ==> (#[trigger] self.deltas@[i])@.len() == self.cols()
        &&& (self.m() == 0 || self.cols() == self.n() || self.cols() == self.n() + 1
            || self.cols() == self.n() + 1 + self.dim())
    }

    /// The permitted basis vectors rebuilt for a point: each entry below
    /// `n` is an outcome of the basis function on the distance to that
    /// center; entry `n`, when present, is one; the affine entries are the
    /// point's own coordinates.
    pub open spec fn basis_vec_rel(self, p: Seq<Real>, bv: Seq<Real>) -> bool {
        &&& bv.len() == self.cols()
        &&& forall|row: int|
            0 <= row < self.cols() && row < self.n() ==> basis_eval_rel(
                self.basis,
                dist_model(p, self.centers@[row]@),
                #[trigger] bv[row],
            )
        &&& (self.n() < self.cols() ==> bv[self.n()] == rint_of(1))
        &&& forall|row: int|
            self.n() < row < self.cols() ==> #[trigger] bv[row] == p[row - self.n() - 1]
    }

    /// The permitted evaluation results: the coefficient matrix applied,
    /// row by fixed-order dot product, to some permitted basis vector for
    /// the point. Everything past the basis-function calls is pinned.
    pub open spec fn eval_rel(self, p: Seq<Real>, out: Seq<Real>) -> bool {
        exists|bv: Seq<Real>|
            #[trigger] self.basis_vec_rel(p, bv) && out == Seq::new(
                self.m() as nat,
                |i: int| dot_model(self.deltas@[i]@, bv),
            )
    }

    /// Evaluates the interpolant at a point of dimension `d`, returning one
    /// value per output channel, or `DimensionMismatch` exactly when the
    /// point's dimension differs from the centers'.
    pub fn eval(&self, coords: &Vec<Real>) -> (res: Result<Vec<Real>, Error>)
        requires
            self.wf(),
        ensures
            (res matches Ok(v) ==> coords@.len() == self.dim() && self.eval_rel(coords@, v@)),
            (res matches Err(e) ==> e == Error::DimensionMismatch && coords@.len() != self.dim()),
    {
        if coords.len() != self.centers[0].len() {
            return Err(Error::DimensionMismatch);
        }
        let n = self.centers.len();
        let ncols = if self.deltas.len() == 0 {
            0
        } else {
            self.deltas[0].len()
        };
        let mut bv: Vec<Real> = Vec::new();
        let mut row: usize = 0;
        while row < ncols
            invariant
                row <= ncols,
                self.wf(),
                n == self.n(),
                ncols == self.cols(),
                coords@.len() == self.dim(),
                bv@.len() == row,
                forall|t: int|
                    0 <= t < row && t < n ==> basis_eval_rel(
                        self.basis,
                        dist_model(coords@, self.centers@[t]@),
                        #[trigger] bv@[t],
                    ),
                (n < row ==> bv@[n as int] == rint_of(1)),
                forall|t: int| n < t < row ==> #[trigger] bv@[t] == coords@[t - n - 1],
            decreases ncols - row,
        {
            if row < n {
                let d = dist(coords, &self.centers[row]);
                bv.push(self.basis.eval(d));
            } else if row == n {
                bv.push(rint(1));
            } else {
                bv.push(coords[row - n - 1]);
            }
            row += 1;
        }
        proof {
            assert(self.basis_vec_rel(coords@, bv@));
        }
        let mut out: Vec<Real> = Vec::new();
        let mut i: usize = 0;
        while i < self.deltas.len()
            invariant
                i <= self.m(),
                self.wf(),
                self.basis_vec_rel(coords@, bv@),
                bv@.len() == self.cols(),
                out@.len() == i,
                forall|t: int|
                    0 <= t < i ==> out@[t] == dot_model(self.deltas@[t]@, bv@),
            decreases self.m() - i,
        {
            out.push(dot(&self.deltas[i], &bv));
            i += 1;
        }
        proof {
            assert(out@ =~= Seq::new(self.m() as nat, |t: int| dot_model(self.deltas@[t]@, bv@)));
            assert(self.eval_rel(coords@, out@));
        }
        Ok(out)
    }
}

/// For an odd polyharmonic basis every operation of evaluation is
/// IEEE-determined, so any two permitted results of evaluating one
/// interpolant at one point are equal. For the other kinds std leaves the
/// precision of the transcendental calls unspecified, and repeat-call
/// identity is checked by the runtime tests instead.
pub proof fn lemma_eval_deterministic_polyharmonic_odd(
    s: Scatter,
    p: Seq<Real>,
    o1: Seq<Real>,
    o2: Seq<Real>,
)
    requires
        (s.basis matches Basis::PolyHarmonic(k) && k % 2 != 0),
        s.eval_rel(p, o1),
        s.eval_rel(p, o2),
    ensures
        o1 == o2,
{
    let bv1 = choose|bv: Seq<Real>|
        #[trigger] s.basis_vec_rel(p, bv) && o1 == Seq::new(
            s.m() as nat,
            |i: int| dot_model(s.deltas@[i]@, bv),
        );
    let bv2 = choose|bv: Seq<Real>|
        #[trigger] s.basis_vec_rel(p, bv) && o2 == Seq::new(
            s.m() as nat,
            |i: int| dot_model(s.deltas@[i]@, bv),
        );
    assert forall|row: int| 0 <= row < s.cols() implies bv1[row] == bv2[row] by {
        if row < s.n() {
            assert(basis_eval_rel(s.basis, dist_model(p, s.centers@[row]@), bv1[row]));
            assert(basis_eval_rel(s.basis, dist_model(p, s.centers@[row]@), bv2[row]));
        }
    }
    assert(bv1 =~= bv2);
}

/// Stacks the value vectors into an `n_aug x m` matrix, padding the
/// polynomial rows with zeros.
fn augmented_values(vals: &Vec<Vec<Real>>, n_aug: usize, m: usize) -> (v: Vec<Vec<Real>>)
    requires
        is_matrix(vals@, vals@.len() as int, m as int),
        n_aug >= vals@.len(),
    ensures
        is_matrix(v@, n_aug as int, m as int),
        forall|i: int| 0 <= i < vals@.len() ==> (#[trigger] v@[i])@ == vals@[i]@,
        forall|i: int, j: int|
            vals@.len() <= i < n_aug && 0 <= j < m ==> v@[i]@[j] == rint_of(0),
{
    let nv = vals.len();
    let mut v: Vec<Vec<Real>> = Vec::new();
    let mut i: usize = 0;
    while i < nv
        invariant
            i <= nv,
            nv == vals@.len(),
            is_matrix(vals@, nv as int, m as int),
            v@.len() == i,
            forall|t: int| 0 <= t < i ==> (#[trigger] v@[t])@ == vals@[t]@,
        decreases nv - i,
    {
        v.push(copy_row(&vals[i]));
        i += 1;
    }
    while i < n_aug
        invariant
            nv <= i <= n_aug,
            nv == vals@.len(),
            v@.len() == i,
            forall|t: int| 0 <= t < nv ==> (#[trigger] v@[t])@ == vals@[t]@,
            forall|t: int, j: int| nv <= t < i && 0 <= j < m ==> #[trigger] (v@[t])@[j] == rint_of(0),
            forall|t: int| nv <= t < i ==> (#[trigger] v@[t])@.len() == m,
        decreases n_aug - i,
    {
        v.push(zero_row(m));
        i += 1;
    }
    proof {
        assert forall|t: int| 0 <= t < n_aug implies (#[trigger] v@[t])@.len() == m by {
            if t < nv {
                assert(v@[t]@ == vals@[t]@);
            }
        }
    }
    v
}

/// The per-dimension mean of all centers, each coordinate sum scaled by the
/// caller-supplied reciprocal of the center count.
fn centroid(centers: &Vec<Vec<Real>>, nrecip: Real) -> (means: Vec<Real>)
    requires
        centers@.len() >= 1,
        forall|i: int|
            0 <= i < centers@.len() ==> (#[trigger] centers@[i])@.len() == centers@[0]@.len(),
    ensures
        means@.len() == centers@[0]@.len(),
        forall|j: int|
            0 <= j < means@.len() ==> means@[j] == rmul_of(
                coord_sum_prefix(centers@, j, centers@.len() as int),
                nrecip,
            ),
{
    let n = centers.len();
    let d = centers[0].len();
    let mut means: Vec<Real> = Vec::new();
    let mut j: usize = 0;
    while j < d
        invariant
            j <= d,
            n == centers@.len(),
            n >= 1,
            d == centers@[0]@.len(),
            forall|i: int|
                0 <= i < centers@.len() ==> (#[trigger] centers@[i])@.len() == centers@[0]@.len(),
            means@.len() == j,
            forall|t: int|
                0 <= t < j ==> means@[t] == rmul_of(
                    coord_sum_prefix(centers@, t, n as int),
                    nrecip,
                ),
        decreases d - j,
    {
        let mut acc = rint(0);
        let mut i: usize = 0;
        while i < n
            invariant
                i <= n,
                j < d,
                n == centers@.len(),
                d == centers@[0]@.len(),
                forall|t: int|
                    0 <= t < centers@.len() ==> (#[trigger] centers@[t])@.len()
                        == centers@[0]@.len(),
                acc == coord_sum_prefix(centers@, j as int, i as int),
            decreases n - i,
        {
            acc = radd(acc, centers[i][j]);
            i += 1;
        }
        means.push(rmul(acc, nrecip));
        j += 1;
    }
    means
}

/// Builds the `n_aug x n_aug` augmented system matrix: each radial entry
/// on or above the diagonal is one basis-function call on the centers'
/// distance, each radial entry below the diagonal copies its already
/// computed mirror, and the polynomial entries are pinned, so the result
/// satisfies [`system_matrix_rel`] and is symmetric by construction.
fn system_matrix(centers: &Vec<Vec<Real>>, means: &Vec<Real>, basis: Basis, n_aug: usize) -> (mat:
    Vec<Vec<Real>>)
    requires
        centers@.len() >= 1,
        forall|i: int|
            0 <= i < centers@.len() ==> (#[trigger] centers@[i])@.len() == centers@[0]@.len(),
        n_aug >= centers@.len(),
        n_aug <= centers@.len() + 1 + centers@[0]@.len(),
        n_aug <= centers@.len() + 1 || means@.len() == centers@[0]@.len(),
    ensures
        is_matrix(mat@, n_aug as int, n_aug as int),
        system_matrix_rel(centers@, means@, basis, n_aug as int, mat_view(mat@)),
{
    let n = centers.len();
    let mut mat: Vec<Vec<Real>> = Vec::new();
    let mut r: usize = 0;
    while r < n_aug
        invariant
            r <= n_aug,
            n == centers@.len(),
            n >= 1,
            forall|i: int|
                0 <= i < centers@.len() ==> (#[trigger] centers@[i])@.len() == centers@[0]@.len(),
            n_aug >= n,
            n_aug <= n + 1 + centers@[0]@.len(),
            n_aug <= n + 1 || means@.len() == centers@[0]@.len(),
            mat@.len() == r,
            forall|t: int| 0 <= t < r ==> (#[trigger] mat@[t])@.len() == n_aug,
            forall|t: int, c: int|
                0 <= t < r && 0 <= c < n_aug && (n <= t || n <= c || t <= c)
                    ==> system_entry_rel(
                    centers@,
                    means@,
                    basis,
                    n as int,
                    t,
                    c,
                    #[trigger] mat@[t]@[c],
                ),
            forall|t: int, c: int|
                0 <= c < t < n && t < r ==> #[trigger] mat@[t]@[c] == mat@[c]@[t],
        decreases n_aug - r,
    {
        let mut row: Vec<Real> = Vec::new();
        let mut c: usize = 0;
        while c < n_aug
            invariant
                c <= n_aug,
                r < n_aug,
                n == centers@.len(),
                n >= 1,
                forall|i: int|
                    0 <= i < centers@.len() ==> (#[trigger] centers@[i])@.len()
                        == centers@[0]@.len(),
                n_aug >= n,
                n_aug <= n + 1 + centers@[0]@.len(),
                n_aug <= n + 1 || means@.len() == centers@[0]@.len(),
                mat@.len() == r,
                forall|t: int| 0 <= t < r ==> (#[trigger] mat@[t])@.len() == n_aug,
                forall|t: int, c2: int|
                    0 <= t < r && 0 <= c2 < n_aug && (n <= t || n <= c2 || t <= c2)
                        ==> system_entry_rel(
                        centers@,
                        means@,
                        basis,
                        n as int,
                        t,
                        c2,
                        #[trigger] mat@[t]@[c2],
                    ),
                forall|t: int, c2: int|
                    0 <= c2 < t < n && t < r ==> #[trigger] mat@[t]@[c2] == mat@[c2]@[t],
                row@.len() == c,
                forall|u: int|
                    0 <= u < c && (n <= r || n <= u || r <= u) ==> system_entry_rel(
                        centers@,
                        means@,
                        basis,
                        n as int,
                        r as int,
                        u,
                        #[trigger] row@[u],
                    ),
                forall|u: int|
                    0 <= u < c && u < r && r < n ==> #[trigger] row@[u] == mat@[u]@[r as int],
            decreases n_aug - c,
        {
            let e: Real = if r < n && c < n {
                if r <= c {
                    let dd = dist(&centers[r], &centers[c]);
                    basis.eval(dd)
                } else {
                    mat[c][r]
                }
            } else if r < n {
                if c == n {
                    rint(1)
                } else {
                    rsub(centers[r][c - n - 1], means[c - n - 1])
                }
            } else if c < n {
                if r == n {
                    rint(1)
                } else {
                    rsub(centers[c][r - n - 1], means[r - n - 1])
                }
            } else {
                rint(0)
            };
            row.push(e);
            c += 1;
        }
        mat.push(row);
        r += 1;
    }
    proof {
        assert forall|t: int, c: int|
            0 <= t < n_aug && 0 <= c < n_aug && (n <= t || n <= c || t <= c) implies system_entry_rel(
            centers@,
            means@,
            basis,
            n as int,
            t,
            c,
            mat_view(mat@)[t][c],
        ) by {
            assert(mat_view(mat@)[t][c] == mat@[t]@[c]);
        }
        assert forall|t: int, c: int| 0 <= c < t < n implies mat_view(mat@)[t][c] == mat_view(
            mat@,
        )[c][t] by {
            assert(mat@[t]@[c] == mat@[c]@[t]);
        }
    }
    mat
}

/// Removes the centroid offset out of the constant coefficient of every
/// output row: entry `n` becomes itself minus the fold of `means[j]` times
/// the affine coefficient at `n + 1 + j`; all other entries are unchanged.
fn correct_constant(deltas: &Vec<Vec<Real>>, means: &Vec<Real>, n: usize) -> (r: Vec<Vec<Real>>)
    requires
        n + 1 + means@.len() <= usize::MAX,
        forall|i: int|
            0 <= i < deltas@.len() ==> (#[trigger] deltas@[i])@.len() == n + 1 + means@.len(),
    ensures
        r@.len() == deltas@.len(),
        forall|i: int| 0 <= i < r@.len() ==> (#[trigger] r@[i])@.len() == n + 1 + means@.len(),
        forall|i: int, t: int|
            0 <= i < r@.len() && 0 <= t < n + 1 + means@.len() && t != n ==> r@[i]@[t]
                == deltas@[i]@[t],
        forall|i: int|
            0 <= i < r@.len() ==> (#[trigger] r@[i])@[n as int] == rsub_of(
                deltas@[i]@[n as int],
                offset_prefix(deltas@[i]@, means@, n as int, means@.len() as int),
            ),
{
    let d = means.len();
    let width: usize = n + 1 + d;
    let mut out: Vec<Vec<Real>> = Vec::new();
    let mut i: usize = 0;
    while i < deltas.len()
        invariant
            i <= deltas@.len(),
            width == n + 1 + d,
            d == means@.len(),
            forall|t: int|
                0 <= t < deltas@.len() ==> (#[trigger] deltas@[t])@.len() == n + 1 + means@.len(),
            out@.len() == i,
            forall|t: int| 0 <= t < i ==> (#[trigger] out@[t])@.len() == n + 1 + means@.len(),
            forall|t: int, u: int|
                0 <= t < i && 0 <= u < width && u != n ==> out@[t]@[u] == deltas@[t]@[u],
            forall|t: int|
                0 <= t < i ==> (#[trigger] out@[t])@[n as int] == rsub_of(
                    deltas@[t]@[n as int],
                    offset_prefix(deltas@[t]@, means@, n as int, d as int),
                ),
        decreases deltas@.len() - i,
    {
        let row = &deltas[i];
        let mut acc = rint(0);
        let mut j: usize = 0;
        while j < d
            invariant
                j <= d,
                i < deltas@.len(),
                width == n + 1 + d,
                d == means@.len(),
                row@ == deltas@[i as int]@,
                row@.len() == n + 1 + d,
                acc == offset_prefix(deltas@[i as int]@, means@, n as int, j as int),
            decreases d - j,
        {
            acc = radd(acc, rmul(means[j], row[n + 1 + j]));
            j += 1;
        }
        let mut newrow: Vec<Real> = Vec::new();
        let mut t: usize = 0;
        while t < width
            invariant
                t <= width,
                i < deltas@.len(),
                width == n + 1 + d,
                d == means@.len(),
                row@ == deltas@[i as int]@,
                row@.len() == width,
                acc == offset_prefix(deltas@[i as int]@, means@, n as int, d as int),
                newrow@.len() == t,
                forall|u: int| 0 <= u < t && u != n ==> newrow@[u] == deltas@[i as int]@[u],
                t > n ==> newrow@[n as int] == rsub_of(
                    deltas@[i as int]@[n as int],
                    offset_prefix(deltas@[i as int]@, means@, n as int, d as int),
                ),
            decreases width - t,
        {
            if t == n {
                newrow.push(rsub(row[t], acc));
            } else {
                newrow.push(row[t]);
            }
            t += 1;
        }
        out.push(newrow);
        i += 1;
    }
    out
}

impl Scatter {
    /// Constructs an interpolant from `n` centers of dimension `d`, `n` value
    /// vectors of dimension `m`, a basis kind, and a polynomial order in
    /// `{0, 1, 2}`.
    ///
    /// Exactly one of the following holds: the input dimensions are
    /// inconsistent and `DimensionMismatch` is returned; the order is above two
    /// and `UnsupportedOrder` is returned; the basis shape parameter is not
    /// strictly positive and `InvalidBasisParameter` is returned; or, as
    /// [`construct_rel`] states, the elimination of the assembled system
    /// finds it singular and `SingularSystem` is returned, or a well-formed
    /// interpolant over the given basis and centers is returned whose
    /// coefficient matrix is exactly the eliminated solution, corrected for
    /// centering.
    pub fn create(centers: Vec<Vec<Real>>, vals: Vec<Vec<Real>>, basis: Basis, order: usize) -> (res:
        Result<Scatter, Error>)
        requires
            centers@.len() + 1 + first_len(centers@) <= i32::MAX as int,
            centers@.len() + 1 + first_len(centers@) + first_len(vals@) <= usize::MAX as int,
        ensures
            (res == Err::<Scatter, Error>(Error::DimensionMismatch) <==> !dims_ok(centers@, vals@)),
            (res == Err::<Scatter, Error>(Error::UnsupportedOrder) <==> dims_ok(centers@, vals@)
                && order > 2),
            (res == Err::<Scatter, Error>(Error::InvalidBasisParameter) <==> dims_ok(centers@, vals@)
                && order <= 2 && !param_ok_model(basis)),
            (res == Err::<Scatter, Error>(Error::SingularSystem) ==> dims_ok(centers@, vals@)
                && order <= 2 && param_ok_model(basis)),
            (dims_ok(centers@, vals@) && order <= 2 && param_ok_model(basis) ==> construct_rel(
                centers@,
                vals@,
                basis,
                order as int,
                res,
            )),
            (res matches Err(e) ==> e == Error::DimensionMismatch || e == Error::UnsupportedOrder
                || e == Error::InvalidBasisParameter || e == Error::SingularSystem),
            (res matches Ok(s) ==> {
                &&& dims_ok(centers@, vals@)
                &&& order <= 2
                &&& param_ok_model(basis)
                &&& s.wf()
                &&& s.basis == basis
                &&& s.centers@ == centers@
                &&& s.m() == first_len(vals@)
                &&& (s.m() > 0 ==> s.cols() == naug_model(
                    order as int,
                    centers@.len() as int,
                    centers@[0]@.len() as int,
                ))
            }),
    {
        let n = centers.len();
        if n == 0 {
            return Err(Error::DimensionMismatch);
        }
        let d = centers[0].len();
        let mut i: usize = 0;
        while i < n
            invariant
                i <= n,
                n == centers@.len(),
                n >= 1,
                d == centers@[0]@.len(),
                forall|t: int| 0 <= t < i ==> (#[trigger] centers@[t])@.len() == d,
            decreases n - i,
        {
            if centers[i].len() != d {
                return Err(Error::DimensionMismatch);
            }
            i += 1;
        }
        if vals.len() != n {
            return Err(Error::DimensionMismatch);
        }
        let m = vals[0].len();
        let mut i2: usize = 0;
        while i2 < n
            invariant
                i2 <= n,
                n == vals@.len(),
                n >= 1,
                m == vals@[0]@.len(),
                forall|t: int| 0 <= t < i2 ==> (#[trigger] vals@[t])@.len() == m,
            decreases n - i2,
        {
            if vals[i2].len() != m {
                return Err(Error::DimensionMismatch);
            }
            i2 += 1;
        }
        if order > 2 {
            return Err(Error::UnsupportedOrder);
        }
        if !basis.param_ok() {
            return Err(Error::InvalidBasisParameter);
        }
        let n_aug: usize = if order == 0 {
            n
        } else if order == 1 {
            n + 1
        } else {
            n + 1 + d
        };
        let vmat = augmented_values(&vals, n_aug, m);
        proof {
            assert(mat_view(vmat@) =~~= stacked_values_model(vals@, n_aug as int, m as int));
        }
        let means: Vec<Real> = if order == 2 {
            let nn: i32 = n as i32;
            let nrecip = rdiv(rint(1), rint(nn));
            centroid(&centers, nrecip)
        } else {
            Vec::new()
        };
        proof {
            assert(means@ =~= means_model(centers@, order as int));
        }
        let mat = system_matrix(&centers, &means, basis, n_aug);
        match solve(&mat, &vmat, m) {
            None => {
                proof {
                    assert(construct_rel(
                        centers@,
                        vals@,
                        basis,
                        order as int,
                        Err::<Scatter, Error>(Error::SingularSystem),
                    ));
                }
                Err(Error::SingularSystem)
            },
            Some(x) => {
                let solved = transpose(&x, n_aug, m);
                proof {
                    assert(mat_view(solved@) =~~= transpose_model(
                        mat_view(x@),
                        n_aug as int,
                        m as int,
                    ));
                }
                let deltas = if order == 2 {
                    let dd = correct_constant(&solved, &means, n);
                    proof {
                        assert(mat_view(dd@) =~~= corrected_model(
                            mat_view(solved@),
                            means@,
                            n as int,
                        ));
                    }
                    dd
                } else {
                    solved
                };
                let s = Scatter { basis, centers, deltas };
                proof {
                    assert(construct_rel(
                        centers@,
                        vals@,
                        basis,
                        order as int,
                        Result::<Scatter, Error>::Ok(s),
                    ));
                }
                Ok(s)
            },
        }
    }
}

} // verus!
