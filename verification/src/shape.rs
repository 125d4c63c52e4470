//! The dimensions of a matrix, and the dimensions that each operation
//! asks of its operands and gives to its results.

use vstd::prelude::*;
use crate::error::KernelError;

verus! {

/// The most cells a matrix may have: a buffer of that many complex numbers
/// is still one that the machine can address.
pub const MAX_CELLS: usize = usize::MAX / 32;

/// A matrix has at least one row and one column, and no more cells than
/// `MAX_CELLS`.
pub open spec fn valid_dims(rows: int, cols: int) -> bool {
    &&& rows >= 1
    &&& cols >= 1
    &&& rows * cols <= MAX_CELLS
}

/// The place of the cell in row `i` and column `j` in a row-major buffer
/// whose rows have `cols` cells.
pub open spec fn offset(i: int, j: int, cols: int) -> int {
    i * cols + j
}

/// A cell of the matrix lies inside its buffer.
pub proof fn lemma_offset_in_buffer(i: int, j: int, rows: int, cols: int)
    requires
        0 <= i < rows,
        0 <= j < cols,
    ensures
        0 <= offset(i, j, cols) < rows * cols,
{
    assert(i * cols + j < rows * cols) by (nonlinear_arith)
        requires
            0 <= i < rows,
            0 <= j < cols,
    ;
    assert(0 <= i * cols) by (nonlinear_arith)
        requires
            0 <= i,
            0 <= cols,
    ;
}

/// The dimensions of a matrix. Every value of this type is valid.
#[derive(Clone, Copy, Debug)]
pub struct Shape {
    rows: usize,
    cols: usize,
}

impl Shape {
    /// The number of rows.
    pub closed spec fn spec_rows(self) -> usize {
        self.rows
    }

    /// The number of columns.
    pub closed spec fn spec_cols(self) -> usize {
        self.cols
    }

    /// What holds of every shape: its dimensions are those of a matrix.
    #[verifier::type_invariant]
    pub open spec fn valid(self) -> bool {
        valid_dims(self.spec_rows() as int, self.spec_cols() as int)
    }

    /// The number of cells.
    pub open spec fn spec_cell_count(self) -> int {
        self.spec_rows() * self.spec_cols()
    }

    /// A shape of `rows` by `cols`, unless no matrix has these dimensions.
    pub fn new(rows: usize, cols: usize) -> (r: Result<Shape, KernelError>)
        ensures
            match r {
                Ok(s) => valid_dims(rows as int, cols as int) && s.spec_rows() == rows
                    && s.spec_cols() == cols && s.valid(),
                Err(e) => !valid_dims(rows as int, cols as int) && e == KernelError::ShapeMismatch,
            },
    {
        if rows == 0 || cols == 0 {
            return Err(KernelError::ShapeMismatch);
        }
        match rows.checked_mul(cols) {
            Some(n) => {
                if n <= MAX_CELLS {
                    Ok(Shape { rows, cols })
                } else {
                    Err(KernelError::ShapeMismatch)
                }
            },
            None => Err(KernelError::ShapeMismatch),
        }
    }

    /// The number of rows, at least one.
    #[verifier::when_used_as_spec(spec_rows)]
    pub fn rows(self) -> (r: usize)
        ensures
            r == self.spec_rows(),
            r >= 1,
    {
        proof {
            use_type_invariant(&self);
        }
        self.rows
    }

    /// The number of columns, at least one.
    #[verifier::when_used_as_spec(spec_cols)]
    pub fn cols(self) -> (c: usize)
        ensures
            c == self.spec_cols(),
            c >= 1,
    {
        proof {
            use_type_invariant(&self);
        }
        self.cols
    }

    /// The number of cells, which is the length of the buffer.
    pub fn cell_count(self) -> (n: usize)
        ensures
            n == self.spec_cell_count(),
            valid_dims(self.spec_rows() as int, self.spec_cols() as int),
    {
        proof {
            use_type_invariant(&self);
        }
        self.rows * self.cols
    }

    /// The place of the cell in row `i` and column `j` in the row-major
    /// buffer, if the matrix has such a cell.
    pub fn offset_of(self, i: usize, j: usize) -> (r: Option<usize>)
        ensures
            match r {
                Some(k) => i < self.spec_rows() && j < self.spec_cols() && k == offset(
                    i as int,
                    j as int,
                    self.spec_cols() as int,
                ) && k < self.spec_cell_count(),
                None => i >= self.spec_rows() || j >= self.spec_cols(),
            },
    {
        proof {
            use_type_invariant(&self);
        }
        if i < self.rows && j < self.cols {
            proof {
                lemma_offset_in_buffer(i as int, j as int, self.rows as int, self.cols as int);
            }
            Some(i * self.cols + j)
        } else {
            None
        }
    }

    /// As many rows as columns.
    pub open spec fn spec_is_square(self) -> bool {
        self.spec_rows() == self.spec_cols()
    }

    /// Whether the shape has as many rows as columns.
    #[verifier::when_used_as_spec(spec_is_square)]
    pub fn is_square(self) -> (r: bool)
        ensures
            r == self.spec_is_square(),
    {
        self.rows == self.cols
    }

    /// The shape of the transposed matrix: rows and columns change places.
    pub fn transposed(self) -> (t: Shape)
        ensures
            t.spec_rows() == self.spec_cols(),
            t.spec_cols() == self.spec_rows(),
            t.valid(),
    {
        proof {
            use_type_invariant(&self);
            assert(self.cols * self.rows == self.rows * self.cols) by (nonlinear_arith);
        }
        Shape { rows: self.cols, cols: self.rows }
    }

    /// Whether a matrix of this shape can be multiplied from the right by
    /// one of shape `right`, with a product that is a matrix: the inner
    /// dimensions agree, and the product has no more cells than `MAX_CELLS`.
    pub open spec fn multiplies(self, right: Shape) -> bool {
        &&& self.spec_cols() == right.spec_rows()
        &&& self.spec_rows() * right.spec_cols() <= MAX_CELLS
    }

    /// The shape of the product of a matrix of this shape with one of shape
    /// `right`: the rows of the first by the columns of the second.
    pub fn times(self, right: Shape) -> (r: Result<Shape, KernelError>)
        ensures
            match r {
                Ok(p) => self.multiplies(right) && p.spec_rows() == self.spec_rows()
                    && p.spec_cols() == right.spec_cols() && p.valid(),
                Err(e) => !self.multiplies(right) && e == KernelError::ShapeMismatch,
            },
    {
        proof {
            use_type_invariant(&self);
            use_type_invariant(&right);
        }
        if self.cols != right.rows {
            return Err(KernelError::ShapeMismatch);
        }
        Shape::new(self.rows, right.cols)
    }

    /// The order of a square matrix: the number of its rows, which is that
    /// of its columns.
    pub fn order(self) -> (r: Result<usize, KernelError>)
        ensures
            match r {
                Ok(n) => self.spec_is_square() && n == self.spec_rows(),
                Err(e) => !self.spec_is_square() && e == KernelError::NotSquare,
            },
    {
        if self.rows == self.cols {
            Ok(self.rows)
        } else {
            Err(KernelError::NotSquare)
        }
    }

    /// The smaller of the two dimensions.
    pub open spec fn spec_rank_bound(self) -> usize {
        if self.spec_rows() <= self.spec_cols() {
            self.spec_rows()
        } else {
            self.spec_cols()
        }
    }

    /// The smaller of the two dimensions, at least one.
    #[verifier::when_used_as_spec(spec_rank_bound)]
    pub fn rank_bound(self) -> (k: usize)
        ensures
            k == self.spec_rank_bound(),
            k >= 1,
    {
        proof {
            use_type_invariant(&self);
        }
        if self.rows <= self.cols {
            self.rows
        } else {
            self.cols
        }
    }

    /// The shapes of the two factors of a QR factorization of an `m` by `n`
    /// matrix: with `k` the smaller of `m` and `n`, the factor with
    /// orthonormal columns is `m` by `k` and the upper-trapezoidal factor is
    /// `k` by `n`.
    pub fn qr_factors(self) -> (r: (Shape, Shape))
        ensures
            r.0.spec_rows() == self.spec_rows(),
            r.0.spec_cols() == self.spec_rank_bound(),
            r.1.spec_rows() == self.spec_rank_bound(),
            r.1.spec_cols() == self.spec_cols(),
            r.0.valid(),
            r.1.valid(),
    {
        proof {
            use_type_invariant(&self);
        }
        let k: usize = self.rank_bound();
        proof {
            assert(self.rows * k <= self.rows * self.cols) by (nonlinear_arith)
                requires
                    k <= self.cols,
            ;
            assert(k * self.cols <= self.rows * self.cols) by (nonlinear_arith)
                requires
                    k <= self.rows,
            ;
        }
        (Shape { rows: self.rows, cols: k }, Shape { rows: k, cols: self.cols })
    }

    /// Whether the full singular value decomposition of a matrix of this
    /// shape consists of matrices: the two square factors have no more cells
    /// than `MAX_CELLS`.
    pub open spec fn has_svd_factors(self) -> bool {
        &&& self.spec_rows() * self.spec_rows() <= MAX_CELLS
        &&& self.spec_cols() * self.spec_cols() <= MAX_CELLS
    }

    /// The shapes of the two square factors of the full singular value
    /// decomposition of an `m` by `n` matrix: `m` by `m` and `n` by `n`.
    pub fn svd_factors(self) -> (r: Result<(Shape, Shape), KernelError>)
        ensures
            match r {
                Ok(f) => self.has_svd_factors() && f.0.spec_rows() == self.spec_rows()
                    && f.0.spec_cols() == self.spec_rows() && f.1.spec_rows() == self.spec_cols()
                    && f.1.spec_cols() == self.spec_cols() && f.0.valid() && f.1.valid(),
                Err(e) => !self.has_svd_factors() && e == KernelError::DecompositionFailure,
            },
    {
        let left = Shape::new(self.rows, self.rows);
        let right = Shape::new(self.cols, self.cols);
        proof {
            use_type_invariant(&self);
        }
        match (left, right) {
            (Ok(u), Ok(vt)) => Ok((u, vt)),
            _ => Err(KernelError::DecompositionFailure),
        }
    }
}

} // verus!
