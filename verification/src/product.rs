//! The product of two matrices.

use vstd::prelude::*;
use crate::error::KernelError;
use crate::matrix::Matrix;
use crate::scalar::Real;
use crate::shape::Shape;

verus! {

/// Whether the product of `a` and `b` is defined: `a` has as many columns
/// as `b` has rows. Gives the shape of the product, the rows of `a` by the
/// columns of `b`, before anything is multiplied.
pub fn matmul_admits(a: &Matrix<Real>, b: &Matrix<Real>) -> (r: Result<Shape, KernelError>)
    ensures
        match r {
            Ok(p) => a.spec_shape().multiplies(b.spec_shape()) && p.spec_rows()
                == a.spec_shape().spec_rows() && p.spec_cols() == b.spec_shape().spec_cols()
                && p.valid(),
            Err(e) => !a.spec_shape().multiplies(b.spec_shape()) && e
                == KernelError::ShapeMismatch,
        },
{
    a.shape().times(b.shape())
}

/// Why `matmul` fails, if it does: always with `ShapeMismatch`, when the
/// operands do not fit each other, or when the cells handed in are not as
/// many as the product has.
pub open spec fn matmul_failure(a: Shape, b: Shape, cells: Seq<Real>) -> Option<KernelError> {
    if !a.multiplies(b) {
        Some(KernelError::ShapeMismatch)
    } else if cells.len() != a.spec_rows() * b.spec_cols() {
        Some(KernelError::ShapeMismatch)
    } else {
        None
    }
}

/// The product of `a` and `b`, given its cells in row-major order as the
/// arithmetic unit computed them. The result has the rows of `a` and the
/// columns of `b` and holds exactly these cells. Operands that do not fit
/// each other have no product, whatever cells are handed in.
pub fn matmul(a: &Matrix<Real>, b: &Matrix<Real>, cells: Vec<Real>) -> (r: Result<
    Matrix<Real>,
    KernelError,
>)
    ensures
        match r {
            Ok(p) => matmul_failure(a.spec_shape(), b.spec_shape(), cells@) is None && p.holds(
                a.row_count(),
                b.col_count(),
                cells@,
            ),
            Err(e) => matmul_failure(a.spec_shape(), b.spec_shape(), cells@) == Some(e),
        },
{
    match matmul_admits(a, b) {
        Ok(shape) => Matrix::with_shape(shape, cells),
        Err(e) => Err(e),
    }
}

} // verus!
