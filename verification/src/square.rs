//! The operations on square matrices: determinant, inverse and
//! eigendecomposition.

use vstd::prelude::*;
use crate::error::{Fault, KernelError};
use crate::matrix::Matrix;
use crate::scalar::{Complex, Real};
use crate::shape::Shape;

verus! {

/// Whether `a` is square. Gives its order before anything is factorized.
pub fn square_admits(a: &Matrix<Real>) -> (r: Result<usize, KernelError>)
    ensures
        match r {
            Ok(n) => a.spec_shape().spec_is_square() && n == a.spec_shape().spec_rows(),
            Err(e) => !a.spec_shape().spec_is_square() && e == KernelError::NotSquare,
        },
{
    a.shape().order()
}

/// The determinant of `a`, given what the factorization routine returned
/// for it: the value, or its fault. A matrix that is not square has no
/// determinant, whatever is handed in. A fault of the routine is a failure
/// of the decomposition.
pub fn determinant(a: &Matrix<Real>, computed: Result<Real, Fault>) -> (r: Result<
    Real,
    KernelError,
>)
    ensures
        r == (if !a.spec_shape().spec_is_square() {
            Err::<Real, KernelError>(KernelError::NotSquare)
        } else {
            match computed {
                Ok(value) => Ok::<Real, KernelError>(value),
                Err(fault) => Err::<Real, KernelError>(KernelError::spec_of_fault(fault)),
            }
        }),
{
    match square_admits(a) {
        Ok(_) => match computed {
            Ok(value) => Ok(value),
            Err(fault) => Err(KernelError::of_fault(fault)),
        },
        Err(e) => Err(e),
    }
}

/// Why `inverse` fails, if it does. A matrix that is not square fails with
/// `NotSquare`. A fault of the factorization routine in its computation
/// means that the matrix is singular; its other faults, and cells that are
/// not those of a matrix of the same order, are a failure of the
/// decomposition.
pub open spec fn inverse_failure(a: Shape, computed: Result<Vec<Real>, Fault>) -> Option<
    KernelError,
> {
    if !a.spec_is_square() {
        Some(KernelError::NotSquare)
    } else {
        match computed {
            Err(fault) => Some(KernelError::spec_of_inverse_fault(fault)),
            Ok(cells) => if cells@.len() != a.spec_cell_count() {
                Some(KernelError::DecompositionFailure)
            } else {
                None
            },
        }
    }
}

/// The inverse of `a`, given what the factorization routine returned for
/// it: the cells of the inverse in row-major order, or its fault. The
/// result has the shape of `a` and holds exactly these cells.
pub fn inverse(a: &Matrix<Real>, computed: Result<Vec<Real>, Fault>) -> (r: Result<
    Matrix<Real>,
    KernelError,
>)
    ensures
        match r {
            Ok(inv) => inverse_failure(a.spec_shape(), computed) is None && computed is Ok
                && inv.holds(a.row_count(), a.col_count(), computed->Ok_0@),
            Err(e) => inverse_failure(a.spec_shape(), computed) == Some(e),
        },
{
    match square_admits(a) {
        Ok(_) => match computed {
            Ok(cells) => match Matrix::with_shape(a.shape(), cells) {
                Ok(inv) => Ok(inv),
                Err(_) => Err(KernelError::DecompositionFailure),
            },
            Err(fault) => Err(KernelError::of_inverse_fault(fault)),
        },
        Err(e) => Err(e),
    }
}

/// The eigenvalues of a square matrix and, column by column, an
/// eigenvector for each. The eigenvalues are in no particular order: the
/// order is that in which the routine found them.
#[derive(Debug)]
pub struct Eigen {
    pub values: Vec<Complex>,
    pub vectors: Matrix<Complex>,
}

/// Why `diagonalize` fails, if it does. A matrix that is not square fails
/// with `NotSquare`. A fault of the routine, eigenvalues that are not as
/// many as the order of the matrix, and cells that are not those of a
/// matrix of the same order are a failure of the decomposition.
pub open spec fn diagonalize_failure(
    a: Shape,
    computed: Result<(Vec<Complex>, Vec<Complex>), Fault>,
) -> Option<KernelError> {
    if !a.spec_is_square() {
        Some(KernelError::NotSquare)
    } else {
        match computed {
            Err(fault) => Some(KernelError::spec_of_fault(fault)),
            Ok(parts) => if parts.0@.len() != a.spec_rows() || parts.1@.len()
                != a.spec_cell_count() {
                Some(KernelError::DecompositionFailure)
            } else {
                None
            },
        }
    }
}

/// The eigendecomposition of `a`, given what the routine returned for it:
/// the eigenvalues and the cells of the matrix of eigenvectors in row-major
/// order, or its fault. The result holds exactly these eigenvalues, in the
/// order given, and these cells.
pub fn diagonalize(a: &Matrix<Real>, computed: Result<(Vec<Complex>, Vec<Complex>), Fault>) -> (r:
    Result<Eigen, KernelError>)
    ensures
        match r {
            Ok(eigen) => diagonalize_failure(a.spec_shape(), computed) is None && computed is Ok
                && eigen.values@ == computed->Ok_0.0@ && eigen.vectors.holds(
                a.row_count(),
                a.col_count(),
                computed->Ok_0.1@,
            ),
            Err(e) => diagonalize_failure(a.spec_shape(), computed) == Some(e),
        },
{
    match square_admits(a) {
        Ok(n) => match computed {
            Ok((values, cells)) => {
                if values.len() != n {
                    return Err(KernelError::DecompositionFailure);
                }
                match Matrix::with_shape(a.shape(), cells) {
                    Ok(vectors) => Ok(Eigen { values, vectors }),
                    Err(_) => Err(KernelError::DecompositionFailure),
                }
            },
            Err(fault) => Err(KernelError::of_fault(fault)),
        },
        Err(e) => Err(e),
    }
}

/// Whether the imaginary part of `z` can be dropped: its absolute value is
/// at most `tolerance`. It cannot when either is not a number.
pub open spec fn nearly_real(z: Complex, tolerance: Real) -> bool {
    z.im.spec_abs().spec_le(tolerance)
}

/// Whether the imaginary part of every entry can be dropped.
pub open spec fn all_nearly_real(zs: Seq<Complex>, tolerance: Real) -> bool {
    forall|i: int| 0 <= i < zs.len() ==> nearly_real(#[trigger] zs[i], tolerance)
}

/// The real parts of the entries, in their order.
pub open spec fn real_parts_of(zs: Seq<Complex>) -> Seq<Real> {
    Seq::new(zs.len(), |i: int| zs[i].re)
}

/// The real parts of complex numbers, for a caller that has room for real
/// numbers only. Gives none when an imaginary part is greater than
/// `tolerance` in absolute value: the caller is told that the real parts
/// alone would misstate the numbers.
pub fn real_parts(zs: &Vec<Complex>, tolerance: Real) -> (r: Option<Vec<Real>>)
    ensures
        match r {
            Some(parts) => all_nearly_real(zs@, tolerance) && parts@ == real_parts_of(zs@),
            None => !all_nearly_real(zs@, tolerance),
        },
{
    let mut parts: Vec<Real> = Vec::with_capacity(zs.len());
    let mut k: usize = 0;
    while k < zs.len()
        invariant
            k <= zs.len(),
            parts@.len() == k,
            forall|i: int| 0 <= i < k ==> nearly_real(#[trigger] zs@[i], tolerance),
            forall|i: int| 0 <= i < k ==> #[trigger] parts@[i] == zs@[i].re,
        decreases zs.len() - k,
    {
        let z: Complex = zs[k];
        if !z.im.abs().le(tolerance) {
            return None;
        }
        parts.push(z.re);
        k += 1;
    }
    proof {
        assert(parts@ =~= real_parts_of(zs@));
    }
    Some(parts)
}

/// The real parts of the cells of a complex matrix, as a matrix of the same
/// shape. Gives none when an imaginary part is greater than `tolerance` in
/// absolute value.
pub fn real_matrix(m: &Matrix<Complex>, tolerance: Real) -> (r: Option<Matrix<Real>>)
    ensures
        match r {
            Some(re) => all_nearly_real(m.spec_cells(), tolerance) && re.holds(
                m.row_count(),
                m.col_count(),
                real_parts_of(m.spec_cells()),
            ),
            None => !all_nearly_real(m.spec_cells(), tolerance),
        },
{
    let shape = m.shape();
    match real_parts(m.cells(), tolerance) {
        Some(parts) => Some(Matrix::assemble(shape, parts)),
        None => None,
    }
}

/// The real parts of an eigendecomposition, for a caller that has room for
/// real numbers only: the real parts of the eigenvalues, in their order,
/// and the matrix of the real parts of the eigenvectors. Gives none when an
/// eigenvalue or a cell of an eigenvector has an imaginary part that is
/// greater than `tolerance` in absolute value.
pub fn real_eigen(eigen: &Eigen, tolerance: Real) -> (r: Option<(Vec<Real>, Matrix<Real>)>)
    ensures
        match r {
            Some(parts) => all_nearly_real(eigen.values@, tolerance) && all_nearly_real(
                eigen.vectors.spec_cells(),
                tolerance,
            ) && parts.0@ == real_parts_of(eigen.values@) && parts.1.holds(
                eigen.vectors.row_count(),
                eigen.vectors.col_count(),
                real_parts_of(eigen.vectors.spec_cells()),
            ),
            None => !all_nearly_real(eigen.values@, tolerance) || !all_nearly_real(
                eigen.vectors.spec_cells(),
                tolerance,
            ),
        },
{
    match real_parts(&eigen.values, tolerance) {
        Some(values) => match real_matrix(&eigen.vectors, tolerance) {
            Some(vectors) => Some((values, vectors)),
            None => None,
        },
        None => None,
    }
}

} // verus!
