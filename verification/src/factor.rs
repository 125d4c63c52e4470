//! The factorizations of a matrix of any shape: QR and singular value
//! decomposition.

use vstd::prelude::*;
use crate::error::{Fault, KernelError};
use crate::matrix::{grid_of, rectangular, Matrix};
use crate::scalar::{descending_non_negative, is_descending_non_negative, Real};
use crate::shape::{lemma_offset_in_buffer, offset, Shape};

verus! {

/// Every cell below the diagonal is a zero: the grid is upper-triangular
/// when it is square, upper-trapezoidal when it is not.
pub open spec fn upper_trapezoidal(g: Seq<Seq<Real>>) -> bool {
    forall|i: int, j: int|
        0 <= j < i < g.len() && j < g[i].len() ==> (#[trigger] g[i][j]).spec_is_zero()
}

/// Tests `upper_trapezoidal` on the cells below the diagonal, row by row.
pub fn is_upper_trapezoidal(m: &Matrix<Real>) -> (ok: bool)
    ensures
        ok == upper_trapezoidal(m@),
{
    let shape = m.shape();
    let rows: usize = shape.rows();
    let cols: usize = shape.cols();
    let count: usize = shape.cell_count();
    let cells = m.cells();
    let ghost g = m@;
    let mut i: usize = 1;
    while i < rows
        invariant
            1 <= i <= rows,
            rows >= 1,
            cols >= 1,
            g == m@,
            g == grid_of(rows as int, cols as int, cells@),
            rectangular(g, rows as int, cols as int),
            cells@.len() == rows * cols,
            rows * cols == count,
            forall|p: int, q: int| 0 <= q < p < i && q < cols ==> (#[trigger] g[p][q]).spec_is_zero(),
        decreases rows - i,
    {
        let below: usize = if i < cols {
            i
        } else {
            cols
        };
        let mut j: usize = 0;
        while j < below
            invariant
                1 <= i < rows,
                cols >= 1,
                below <= i,
                below <= cols,
                j <= below,
                g == m@,
                g == grid_of(rows as int, cols as int, cells@),
                rectangular(g, rows as int, cols as int),
                cells@.len() == rows * cols,
                rows * cols == count,
                forall|p: int, q: int|
                    0 <= q < p < i && q < cols ==> (#[trigger] g[p][q]).spec_is_zero(),
                forall|q: int| 0 <= q < j ==> (#[trigger] g[i as int][q]).spec_is_zero(),
            decreases below - j,
        {
            proof {
                lemma_offset_in_buffer(i as int, j as int, rows as int, cols as int);
                assert(g[i as int][j as int] == cells@[offset(i as int, j as int, cols as int)]);
            }
            if !cells[i * cols + j].is_zero() {
                proof {
                    assert(g[i as int].len() == cols);
                    assert(!g[i as int][j as int].spec_is_zero());
                }
                return false;
            }
            j += 1;
        }
        i += 1;
    }
    proof {
        assert forall|p: int, q: int| 0 <= q < p < g.len() && q < g[p].len() implies (
        #[trigger] g[p][q]).spec_is_zero() by {
            assert(g[p].len() == cols);
        }
    }
    true
}

/// The two factors of a QR factorization: `q` has orthonormal columns and
/// `r` is upper-trapezoidal.
#[derive(Debug)]
pub struct Qr {
    pub q: Matrix<Real>,
    pub r: Matrix<Real>,
}

/// Whether the buffers are the two factors of a QR factorization of an `m`
/// by `n` matrix: with `k` the smaller of `m` and `n`, the first holds an
/// `m` by `k` matrix, the second a `k` by `n` matrix, and the second is
/// upper-trapezoidal.
pub open spec fn qr_well_formed(a: Shape, q: Seq<Real>, r: Seq<Real>) -> bool {
    &&& q.len() == a.spec_rows() * a.spec_rank_bound()
    &&& r.len() == a.spec_rank_bound() * a.spec_cols()
    &&& upper_trapezoidal(grid_of(a.spec_rank_bound() as int, a.spec_cols() as int, r))
}

/// Why `qr_decompose` fails, if it does: with what the fault of the routine
/// amounts to, or with `DecompositionFailure` when what the routine returned
/// are not the factors of a QR factorization.
pub open spec fn qr_failure(a: Shape, computed: Result<(Vec<Real>, Vec<Real>), Fault>) -> Option<
    KernelError,
> {
    match computed {
        Err(fault) => Some(KernelError::spec_of_fault(fault)),
        Ok(parts) => if qr_well_formed(a, parts.0@, parts.1@) {
            None
        } else {
            Some(KernelError::DecompositionFailure)
        },
    }
}

/// The QR factorization of `a`, given what the routine returned for it: the
/// cells of the two factors in row-major order, or its fault. The result
/// holds exactly these cells, and its second factor is upper-trapezoidal.
pub fn qr_decompose(a: &Matrix<Real>, computed: Result<(Vec<Real>, Vec<Real>), Fault>) -> (out:
    Result<Qr, KernelError>)
    ensures
        match out {
            Ok(qr) => qr_failure(a.spec_shape(), computed) is None && computed is Ok && qr.q.holds(
                a.row_count(),
                a.spec_shape().spec_rank_bound() as int,
                computed->Ok_0.0@,
            ) && qr.r.holds(
                a.spec_shape().spec_rank_bound() as int,
                a.col_count(),
                computed->Ok_0.1@,
            ) && upper_trapezoidal(qr.r@),
            Err(e) => qr_failure(a.spec_shape(), computed) == Some(e),
        },
{
    match computed {
        Ok((q_cells, r_cells)) => {
            let (q_shape, r_shape) = a.shape().qr_factors();
            let q = match Matrix::with_shape(q_shape, q_cells) {
                Ok(q) => q,
                Err(_) => {
                    return Err(KernelError::DecompositionFailure);
                },
            };
            let r = match Matrix::with_shape(r_shape, r_cells) {
                Ok(r) => r,
                Err(_) => {
                    return Err(KernelError::DecompositionFailure);
                },
            };
            if is_upper_trapezoidal(&r) {
                Ok(Qr { q, r })
            } else {
                Err(KernelError::DecompositionFailure)
            }
        },
        Err(fault) => Err(KernelError::of_fault(fault)),
    }
}

/// A full singular value decomposition: `u` and `vt` are square, and `s`
/// holds the singular values, none negative, from the greatest down.
#[derive(Debug)]
pub struct Svd {
    pub u: Matrix<Real>,
    pub s: Vec<Real>,
    pub vt: Matrix<Real>,
}

/// Whether the buffers are a full singular value decomposition of an `m` by
/// `n` matrix: both square factors are there, `m` by `m` and `n` by `n`, and
/// the singular values are as many as the smaller of `m` and `n`, none
/// negative, in descending order.
pub open spec fn svd_well_formed(
    a: Shape,
    u: Option<Vec<Real>>,
    s: Seq<Real>,
    vt: Option<Vec<Real>>,
) -> bool {
    &&& a.has_svd_factors()
    &&& u is Some
    &&& vt is Some
    &&& u->Some_0@.len() == a.spec_rows() * a.spec_rows()
    &&& vt->Some_0@.len() == a.spec_cols() * a.spec_cols()
    &&& s.len() == a.spec_rank_bound()
    &&& descending_non_negative(s)
}

/// Why `svd_decompose` fails, if it does: with what the fault of the
/// routine amounts to, or with `DecompositionFailure` when what the routine
/// returned is not a full singular value decomposition. A factor that the
/// routine left out is never made up.
pub open spec fn svd_failure(
    a: Shape,
    computed: Result<(Option<Vec<Real>>, Vec<Real>, Option<Vec<Real>>), Fault>,
) -> Option<KernelError> {
    match computed {
        Err(fault) => Some(KernelError::spec_of_fault(fault)),
        Ok(parts) => if svd_well_formed(a, parts.0, parts.1@, parts.2) {
            None
        } else {
            Some(KernelError::DecompositionFailure)
        },
    }
}

/// The singular value decomposition of `a`, given what the routine returned
/// for it: the cells of the left factor, the singular values and the cells
/// of the right factor, or its fault. The result holds exactly these cells
/// and values; the values are not negative and descend.
pub fn svd_decompose(
    a: &Matrix<Real>,
    computed: Result<(Option<Vec<Real>>, Vec<Real>, Option<Vec<Real>>), Fault>,
) -> (out: Result<Svd, KernelError>)
    ensures
        match out {
            Ok(svd) => svd_failure(a.spec_shape(), computed) is None && computed is Ok
                && svd.u.holds(a.row_count(), a.row_count(), computed->Ok_0.0->Some_0@)
                && svd.vt.holds(a.col_count(), a.col_count(), computed->Ok_0.2->Some_0@) && svd.s@
                == computed->Ok_0.1@ && descending_non_negative(svd.s@),
            Err(e) => svd_failure(a.spec_shape(), computed) == Some(e),
        },
{
    match computed {
        Ok((Some(u_cells), s, Some(vt_cells))) => {
            let shape = a.shape();
            let (u_shape, vt_shape) = match shape.svd_factors() {
                Ok(shapes) => shapes,
                Err(e) => {
                    return Err(e);
                },
            };
            let u = match Matrix::with_shape(u_shape, u_cells) {
                Ok(u) => u,
                Err(_) => {
                    return Err(KernelError::DecompositionFailure);
                },
            };
            let vt = match Matrix::with_shape(vt_shape, vt_cells) {
                Ok(vt) => vt,
                Err(_) => {
                    return Err(KernelError::DecompositionFailure);
                },
            };
            if s.len() == shape.rank_bound() && is_descending_non_negative(&s) {
                Ok(Svd { u, s, vt })
            } else {
                Err(KernelError::DecompositionFailure)
            }
        },
        Ok(_) => Err(KernelError::DecompositionFailure),
        Err(fault) => Err(KernelError::of_fault(fault)),
    }
}

} // verus!
