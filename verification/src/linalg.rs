//! Dense matrix and vector helpers for the augmented interpolation system.
//!
//! A matrix is a vector of rows of equal length. Entry arithmetic is pinned
//! to the uninterpreted scalar names of [`crate::scalar`]; the shapes, the
//! placement of every entry, and the whole course of the Gauss-Jordan
//! elimination are verified against spec-level models, so every result is a
//! stated function of the inputs.

use vstd::prelude::*;
use crate::scalar::{
    Real, radd, radd_of, rdiv, rdiv_of, reqv, reqv_of, rint, rint_of, rmul, rmul_of, rsqrt,
    rsqrt_of, rsub, rsub_of,
};

verus! {

/// `m` is a matrix of `rows` rows, each of `cols` entries.
pub open spec fn is_matrix(m: Seq<Vec<Real>>, rows: int, cols: int) -> bool {
    m.len() == rows && (forall|i: int| 0 <= i < rows ==> (#[trigger] m[i])@.len() == cols)
}

/// The sequence-of-rows view of a matrix held as a vector of rows.
pub open spec fn mat_view(m: Seq<Vec<Real>>) -> Seq<Seq<Real>> {
    Seq::new(m.len(), |i: int| m[i]@)
}

/// The left fold of pairwise products over the first `k` positions: the dot
/// product as a fixed order of additions.
pub open spec fn dot_prefix(a: Seq<Real>, b: Seq<Real>, k: int) -> Real
    decreases k,
{
    if k <= 0 {
        rint_of(0)
    } else {
        radd_of(dot_prefix(a, b, k - 1), rmul_of(a[k - 1], b[k - 1]))
    }
}

/// The dot product of two equally long vectors.
pub open spec fn dot_model(a: Seq<Real>, b: Seq<Real>) -> Real {
    dot_prefix(a, b, a.len() as int)
}

/// The left fold of squared coordinate differences over the first `k`
/// positions.
pub open spec fn sq_dist_prefix(a: Seq<Real>, b: Seq<Real>, k: int) -> Real
    decreases k,
{
    if k <= 0 {
        rint_of(0)
    } else {
        radd_of(
            sq_dist_prefix(a, b, k - 1),
            rmul_of(rsub_of(a[k - 1], b[k - 1]), rsub_of(a[k - 1], b[k - 1])),
        )
    }
}

/// The Euclidean distance of two equally long coordinate vectors.
pub open spec fn dist_model(a: Seq<Real>, b: Seq<Real>) -> Real {
    rsqrt_of(sq_dist_prefix(a, b, a.len() as int))
}

/// Every entry of `a` divided by `p`.
pub open spec fn div_row_model(a: Seq<Real>, p: Real) -> Seq<Real> {
    Seq::new(a.len(), |j: int| rdiv_of(a[j], p))
}

/// `f` times `b` subtracted from `a`, entry by entry.
pub open spec fn sub_scaled_model(a: Seq<Real>, b: Seq<Real>, f: Real) -> Seq<Real> {
    Seq::new(a.len(), |j: int| rsub_of(a[j], rmul_of(f, b[j])))
}

/// The first row at or after `r` whose `col` entry differs from zero under
/// the trusted scalar equality, or the row count when every one is zero.
pub open spec fn find_pivot(w: Seq<Seq<Real>>, col: int, r: int) -> int
    decreases w.len() - r,
{
    if r < 0 || r >= w.len() {
        w.len() as int
    } else if !reqv_of(w[r][col], rint_of(0)) {
        r
    } else {
        find_pivot(w, col, r + 1)
    }
}

/// One elimination pass for column `col` with pivot row `piv`: the pivot
/// row, scaled so its `col` entry becomes one, replaces row `col`; the
/// displaced row `col` moves to position `piv`; the scaled pivot row times
/// each row's own `col` entry is subtracted from every other row.
pub open spec fn eliminate_col_model(w: Seq<Seq<Real>>, col: int, piv: int) -> Seq<Seq<Real>> {
    let prow = div_row_model(w[piv], w[piv][col]);
    Seq::new(
        w.len(),
        |j: int|
            if j == col {
                prow
            } else if j == piv {
                sub_scaled_model(w[col], prow, w[col][col])
            } else {
                sub_scaled_model(w[j], prow, w[j][col])
            },
    )
}

/// Gauss-Jordan elimination over columns `col .. n`: `None` exactly when
/// some column from `col` on has no pivot whose entry differs from zero.
pub open spec fn gauss_model(w: Seq<Seq<Real>>, col: int, n: int) -> Option<Seq<Seq<Real>>>
    decreases n - col,
{
    if col < 0 || col >= n {
        Option::Some(w)
    } else {
        let piv = find_pivot(w, col, col);
        if piv >= w.len() {
            Option::None
        } else {
            gauss_model(eliminate_col_model(w, col, piv), col + 1, n)
        }
    }
}

/// The augmented matrix `[a | b]`, row by row.
pub open spec fn augment_model(a: Seq<Seq<Real>>, b: Seq<Seq<Real>>) -> Seq<Seq<Real>> {
    Seq::new(a.len(), |i: int| a[i] + b[i])
}

/// Columns `n .. n + bcols` of an eliminated augmented matrix: the solution
/// block.
pub open spec fn extract_model(w: Seq<Seq<Real>>, n: int, bcols: int) -> Seq<Seq<Real>> {
    Seq::new(w.len(), |i: int| Seq::new(bcols as nat, |j: int| w[i][n + j]))
}

/// The transpose of a `rows x cols` matrix of rows.
pub open spec fn transpose_model(x: Seq<Seq<Real>>, rows: int, cols: int) -> Seq<Seq<Real>> {
    Seq::new(cols as nat, |i: int| Seq::new(rows as nat, |j: int| x[j][i]))
}

/// What [`solve`] returns: the solution block of the Gauss-Jordan
/// elimination of `[a | b]`, or `None` when the elimination meets a column
/// without a usable pivot.
pub open spec fn solve_model(a: Seq<Seq<Real>>, b: Seq<Seq<Real>>, bcols: int) -> Option<
    Seq<Seq<Real>>,
> {
    match gauss_model(augment_model(a, b), 0, a.len() as int) {
        Option::Some(w) => Option::Some(extract_model(w, a.len() as int, bcols)),
        Option::None => Option::None,
    }
}

/// Computes the dot product of `a` and `b`.
pub fn dot(a: &Vec<Real>, b: &Vec<Real>) -> (y: Real)
    requires
        a@.len() == b@.len(),
    ensures
        y == dot_model(a@, b@),
{
    let mut acc = rint(0);
    let mut i: usize = 0;
    while i < a.len()
        invariant
            i <= a@.len(),
            a@.len() == b@.len(),
            acc == dot_prefix(a@, b@, i as int),
        decreases a@.len() - i,
    {
        acc = radd(acc, rmul(a[i], b[i]));
        i += 1;
    }
    acc
}

/// Computes the Euclidean distance of `a` and `b`.
pub fn dist(a: &Vec<Real>, b: &Vec<Real>) -> (y: Real)
    requires
        a@.len() == b@.len(),
    ensures
        y == dist_model(a@, b@),
{
    let mut acc = rint(0);
    let mut i: usize = 0;
    while i < a.len()
        invariant
            i <= a@.len(),
            a@.len() == b@.len(),
            acc == sq_dist_prefix(a@, b@, i as int),
        decreases a@.len() - i,
    {
        let diff = rsub(a[i], b[i]);
        acc = radd(acc, rmul(diff, diff));
        i += 1;
    }
    rsqrt(acc)
}

/// Copies a row.
pub(crate) fn copy_row(a: &Vec<Real>) -> (r: Vec<Real>)
    ensures
        r@ == a@,
{
    let mut r: Vec<Real> = Vec::new();
    let mut i: usize = 0;
    while i < a.len()
        invariant
            i <= a@.len(),
            r@ == a@.subrange(0, i as int),
        decreases a@.len() - i,
    {
        r.push(a[i]);
        i += 1;
    }
    proof {
        assert(r@ =~= a@);
    }
    r
}

/// A row of `len` zero entries.
pub(crate) fn zero_row(len: usize) -> (r: Vec<Real>)
    ensures
        r@.len() == len,
        forall|j: int| 0 <= j < len ==> r@[j] == rint_of(0),
{
    let mut r: Vec<Real> = Vec::new();
    let mut i: usize = 0;
    while i < len
        invariant
            i <= len,
            r@.len() == i,
            forall|j: int| 0 <= j < i ==> r@[j] == rint_of(0),
        decreases len - i,
    {
        r.push(rint(0));
        i += 1;
    }
    r
}

/// Divides every entry of a row by `p`.
pub(crate) fn div_row(a: &Vec<Real>, p: Real) -> (r: Vec<Real>)
    ensures
        r@ == div_row_model(a@, p),
{
    let mut r: Vec<Real> = Vec::new();
    let mut i: usize = 0;
    while i < a.len()
        invariant
            i <= a@.len(),
            r@.len() == i,
            forall|j: int| 0 <= j < i ==> r@[j] == rdiv_of(a@[j], p),
        decreases a@.len() - i,
    {
        r.push(rdiv(a[i], p));
        i += 1;
    }
    proof {
        assert(r@ =~= div_row_model(a@, p));
    }
    r
}

/// Subtracts `f` times the row `b` from the row `a`, entry by entry.
pub(crate) fn sub_scaled(a: &Vec<Real>, b: &Vec<Real>, f: Real) -> (r: Vec<Real>)
    requires
        a@.len() == b@.len(),
    ensures
        r@ == sub_scaled_model(a@, b@, f),
{
    let mut r: Vec<Real> = Vec::new();
    let mut i: usize = 0;
    while i < a.len()
        invariant
            i <= a@.len(),
            a@.len() == b@.len(),
            r@.len() == i,
            forall|j: int| 0 <= j < i ==> r@[j] == rsub_of(a@[j], rmul_of(f, b@[j])),
        decreases a@.len() - i,
    {
        r.push(rsub(a[i], rmul(f, b[i])));
        i += 1;
    }
    proof {
        assert(r@ =~= sub_scaled_model(a@, b@, f));
    }
    r
}

/// Transposes a `rows x cols` matrix.
pub fn transpose(m: &Vec<Vec<Real>>, rows: usize, cols: usize) -> (r: Vec<Vec<Real>>)
    requires
        is_matrix(m@, rows as int, cols as int),
    ensures
        is_matrix(r@, cols as int, rows as int),
        forall|i: int, j: int|
            0 <= i < cols && 0 <= j < rows ==> r@[i]@[j] == m@[j]@[i],
{
    let mut r: Vec<Vec<Real>> = Vec::new();
    let mut i: usize = 0;
    while i < cols
        invariant
            i <= cols,
            is_matrix(m@, rows as int, cols as int),
            r@.len() == i,
            forall|a: int| 0 <= a < i ==> (#[trigger] r@[a])@.len() == rows,
            forall|a: int, b: int|
                0 <= a < i && 0 <= b < rows ==> r@[a]@[b] == m@[b]@[a],
        decreases cols - i,
    {
        let mut row: Vec<Real> = Vec::new();
        let mut j: usize = 0;
        while j < rows
            invariant
                j <= rows,
                i < cols,
                is_matrix(m@, rows as int, cols as int),
                row@.len() == j,
                forall|b: int| 0 <= b < j ==> row@[b] == m@[b]@[i as int],
            decreases rows - j,
        {
            row.push(m[j][i]);
            j += 1;
        }
        r.push(row);
        i += 1;
    }
    r
}

/// One Gauss-Jordan pass for column `col`, exactly as
/// [`eliminate_col_model`] states it.
fn eliminate_col(w: &Vec<Vec<Real>>, col: usize, piv: usize, n: usize, width: usize) -> (r: Vec<
    Vec<Real>,
>)
    requires
        is_matrix(w@, n as int, width as int),
        col < n,
        col <= piv < n,
        col < width,
    ensures
        is_matrix(r@, n as int, width as int),
        mat_view(r@) == eliminate_col_model(mat_view(w@), col as int, piv as int),
{
    let pivot_entry = w[piv][col];
    let prow = div_row(&w[piv], pivot_entry);
    proof {
        assert(prow@ == div_row_model(mat_view(w@)[piv as int], mat_view(w@)[piv as int][
            col as int
        ]));
    }
    let mut out: Vec<Vec<Real>> = Vec::new();
    let mut j: usize = 0;
    while j < n
        invariant
            j <= n,
            is_matrix(w@, n as int, width as int),
            col < n,
            col <= piv < n,
            col < width,
            prow@.len() == width,
            prow@ == div_row_model(mat_view(w@)[piv as int], mat_view(w@)[piv as int][col as int]),
            out@.len() == j,
            forall|t: int| 0 <= t < j ==> (#[trigger] out@[t])@.len() == width,
            forall|t: int|
                0 <= t < j ==> (#[trigger] out@[t])@ == eliminate_col_model(
                    mat_view(w@),
                    col as int,
                    piv as int,
                )[t],
        decreases n - j,
    {
        if j == col {
            out.push(copy_row(&prow));
        } else if j == piv {
            let f = w[col][col];
            out.push(sub_scaled(&w[col], &prow, f));
        } else {
            let f = w[j][col];
            out.push(sub_scaled(&w[j], &prow, f));
        }
        j += 1;
    }
    proof {
        assert(mat_view(out@) =~~= eliminate_col_model(mat_view(w@), col as int, piv as int));
    }
    out
}

/// Solves the square linear system `a * x = b` for the `n x bcols` unknown
/// `x` by Gauss-Jordan elimination on the augmented matrix `[a | b]`. The
/// result is exactly what [`solve_model`] states: `None` when elimination
/// meets a column with no non-zero pivot (a singular `a`), and otherwise
/// the solution block, entry by entry.
pub fn solve(a: &Vec<Vec<Real>>, b: &Vec<Vec<Real>>, bcols: usize) -> (res: Option<Vec<Vec<Real>>>)
    requires
        is_matrix(a@, a@.len() as int, a@.len() as int),
        is_matrix(b@, a@.len() as int, bcols as int),
        a@.len() + bcols <= usize::MAX,
    ensures
        match res {
            Some(x) => is_matrix(x@, a@.len() as int, bcols as int) && solve_model(
                mat_view(a@),
                mat_view(b@),
                bcols as int,
            ) == Option::Some(mat_view(x@)),
            None => (solve_model(mat_view(a@), mat_view(b@), bcols as int) is None),
        },
{
    let n = a.len();
    let width = n + bcols;
    let mut w: Vec<Vec<Real>> = Vec::new();
    let mut i: usize = 0;
    while i < n
        invariant
            i <= n,
            n == a@.len(),
            width == n + bcols,
            is_matrix(a@, n as int, n as int),
            is_matrix(b@, n as int, bcols as int),
            w@.len() == i,
            forall|t: int| 0 <= t < i ==> (#[trigger] w@[t])@.len() == width,
            forall|t: int| 0 <= t < i ==> (#[trigger] w@[t])@ == a@[t]@ + b@[t]@,
        decreases n - i,
    {
        let mut row: Vec<Real> = Vec::new();
        let mut j: usize = 0;
        while j < n
            invariant
                j <= n,
                i < n,
                n == a@.len(),
                is_matrix(a@, n as int, n as int),
                row@ == a@[i as int]@.subrange(0, j as int),
            decreases n - j,
        {
            row.push(a[i][j]);
            j += 1;
        }
        proof {
            assert(row@ =~= a@[i as int]@);
        }
        let mut k: usize = 0;
        while k < bcols
            invariant
                k <= bcols,
                i < n,
                n == a@.len(),
                is_matrix(b@, n as int, bcols as int),
                row@ == a@[i as int]@ + b@[i as int]@.subrange(0, k as int),
            decreases bcols - k,
        {
            row.push(b[i][k]);
            k += 1;
        }
        proof {
            assert(row@ =~= a@[i as int]@ + b@[i as int]@);
        }
        w.push(row);
        i += 1;
    }
    proof {
        assert(mat_view(w@) =~~= augment_model(mat_view(a@), mat_view(b@)));
    }
    let ghost aug0 = mat_view(w@);
    let mut col: usize = 0;
    while col < n
        invariant
            col <= n,
            n == a@.len(),
            width == n + bcols,
            n <= width,
            is_matrix(w@, n as int, width as int),
            aug0 == augment_model(mat_view(a@), mat_view(b@)),
            gauss_model(aug0, 0, n as int) == gauss_model(mat_view(w@), col as int, n as int),
        decreases n - col,
    {
        let mut piv: usize = n;
        let mut r: usize = col;
        while r < n
            invariant
                col <= r <= n,
                col < n,
                n == a@.len(),
                is_matrix(w@, n as int, width as int),
                n <= width,
                piv == n || col <= piv < n,
                piv == n ==> find_pivot(mat_view(w@), col as int, col as int) == find_pivot(
                    mat_view(w@),
                    col as int,
                    r as int,
                ),
                piv < n ==> find_pivot(mat_view(w@), col as int, col as int) == piv,
            decreases n - r,
        {
            if piv == n {
                if !reqv(w[r][col], rint(0)) {
                    piv = r;
                    proof {
                        assert(find_pivot(mat_view(w@), col as int, r as int) == r);
                    }
                } else {
                    proof {
                        assert(find_pivot(mat_view(w@), col as int, r as int) == find_pivot(
                            mat_view(w@),
                            col as int,
                            r + 1,
                        ));
                    }
                }
            }
            r += 1;
        }
        if piv == n {
            proof {
                assert(find_pivot(mat_view(w@), col as int, n as int) == n as int);
                assert(gauss_model(mat_view(w@), col as int, n as int) is None);
            }
            return None;
        }
        let ghost prev = mat_view(w@);
        w = eliminate_col(&w, col, piv, n, width);
        proof {
            assert(gauss_model(prev, col as int, n as int) == gauss_model(
                mat_view(w@),
                col + 1,
                n as int,
            ));
        }
        col += 1;
    }
    proof {
        assert(gauss_model(mat_view(w@), n as int, n as int) == Option::Some(mat_view(w@)));
    }
    let mut x: Vec<Vec<Real>> = Vec::new();
    let mut i2: usize = 0;
    while i2 < n
        invariant
            i2 <= n,
            n == a@.len(),
            width == n + bcols,
            is_matrix(w@, n as int, width as int),
            x@.len() == i2,
            forall|t: int| 0 <= t < i2 ==> (#[trigger] x@[t])@.len() == bcols,
            forall|t: int|
                0 <= t < i2 ==> (#[trigger] x@[t])@ == extract_model(
                    mat_view(w@),
                    n as int,
                    bcols as int,
                )[t],
        decreases n - i2,
    {
        let mut row: Vec<Real> = Vec::new();
        let mut j4: usize = 0;
        while j4 < bcols
            invariant
                j4 <= bcols,
                i2 < n,
                n == a@.len(),
                width == n + bcols,
                is_matrix(w@, n as int, width as int),
                row@.len() == j4,
                forall|u: int| 0 <= u < j4 ==> row@[u] == w@[i2 as int]@[n + u],
            decreases bcols - j4,
        {
            row.push(w[i2][n + j4]);
            j4 += 1;
        }
        proof {
            assert(row@ =~= extract_model(mat_view(w@), n as int, bcols as int)[i2 as int]);
        }
        x.push(row);
        i2 += 1;
    }
    proof {
        assert(mat_view(x@) =~~= extract_model(mat_view(w@), n as int, bcols as int));
    }
    Some(x)
}

} // verus!
