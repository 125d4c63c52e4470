//! Dense matrices in row-major order, and their transposition.
//!
//! The model of a matrix is the sequence of its rows, each a sequence of
//! cells. The buffer holds the rows one after the other. This is the
//! standard layout of an `ndarray` array, so a buffer of this crate can be
//! viewed as such an array without moving a cell.

use vstd::prelude::*;
use vstd::arithmetic::div_mod::{lemma_fundamental_div_mod, lemma_mod_bound};
use crate::error::KernelError;
use crate::shape::{lemma_offset_in_buffer, offset, valid_dims, Shape};

verus! {

/// `g` has `rows` rows of `cols` cells each.
pub open spec fn rectangular<T>(g: Seq<Seq<T>>, rows: int, cols: int) -> bool {
    &&& g.len() == rows
    &&& forall|i: int| 0 <= i < rows ==> (#[trigger] g[i]).len() == cols
}

/// The rows that a row-major buffer holds when each row has `cols` cells.
pub open spec fn grid_of<T>(rows: int, cols: int, cells: Seq<T>) -> Seq<Seq<T>> {
    Seq::new(rows as nat, |i: int| Seq::new(cols as nat, |j: int| cells[offset(i, j, cols)]))
}

/// The row-major buffer of a grid: its rows one after the other.
pub open spec fn row_major<T>(g: Seq<Seq<T>>) -> Seq<T> {
    Seq::new(g.len() * g[0].len(), |k: int| g[k / (g[0].len() as int)][k % (g[0].len() as int)])
}

/// The transposed grid: its cell in row `j` and column `i` is the cell of
/// `g` in row `i` and column `j`.
pub open spec fn transposed<T>(g: Seq<Seq<T>>) -> Seq<Seq<T>> {
    Seq::new(g[0].len(), |j: int| Seq::new(g.len(), |i: int| g[i][j]))
}

/// Transposing twice gives the grid back, cell for cell.
pub proof fn law_transpose_is_an_involution<T>(g: Seq<Seq<T>>, rows: int, cols: int)
    requires
        rows >= 1,
        cols >= 1,
        rectangular(g, rows, cols),
    ensures
        rectangular(transposed(g), cols, rows),
        transposed(transposed(g)) == g,
{
    let t = transposed(g);
    assert(g[0].len() == cols);
    assert(t.len() == cols);
    assert(t[0].len() == rows);
    let tt = transposed(t);
    assert(tt.len() == g.len());
    assert forall|i: int| 0 <= i < rows implies #[trigger] tt[i] =~= g[i] by {
        assert(g[i].len() == cols);
    }
    assert(tt =~= g);
}

/// A buffer and the grid it holds determine each other.
pub proof fn law_row_major_round_trip<T>(rows: int, cols: int, cells: Seq<T>)
    requires
        rows >= 1,
        cols >= 1,
        cells.len() == rows * cols,
    ensures
        rectangular(grid_of(rows, cols, cells), rows, cols),
        row_major(grid_of(rows, cols, cells)) == cells,
{
    let g = grid_of(rows, cols, cells);
    assert(g[0].len() == cols);
    let flat = row_major(g);
    assert(flat.len() == cells.len());
    assert forall|k: int| 0 <= k < cells.len() implies #[trigger] flat[k] == cells[k] by {
        lemma_cell_of_offset(k, rows, cols);
    }
    assert(flat =~= cells);
}

/// A place in the buffer is the place of exactly one cell: that in row
/// `k / cols` and column `k % cols`.
pub proof fn lemma_cell_of_offset(k: int, rows: int, cols: int)
    requires
        rows >= 1,
        cols >= 1,
        0 <= k < rows * cols,
    ensures
        0 <= k / cols < rows,
        0 <= k % cols < cols,
        offset(k / cols, k % cols, cols) == k,
{
    lemma_fundamental_div_mod(k, cols);
    lemma_mod_bound(k, cols);
    let q = k / cols;
    let r = k % cols;
    assert(k == cols * q + r);
    assert(cols * q == q * cols) by (nonlinear_arith);
    assert(0 <= q < rows) by (nonlinear_arith)
        requires
            k == q * cols + r,
            0 <= r < cols,
            0 <= k < rows * cols,
            cols >= 1,
    ;
}

/// A dense matrix with at least one row and one column.
#[derive(Debug)]
pub struct Matrix<T> {
    shape: Shape,
    cells: Vec<T>,
}

impl<T> View for Matrix<T> {
    type V = Seq<Seq<T>>;

    /// The rows of the matrix, each the sequence of its cells.
    closed spec fn view(&self) -> Seq<Seq<T>> {
        grid_of(self.shape.spec_rows() as int, self.shape.spec_cols() as int, self.cells@)
    }
}

impl<T> Matrix<T> {
    /// What holds of every matrix: its shape is valid, and its buffer has
    /// one cell for each place.
    #[verifier::type_invariant]
    pub closed spec fn consistent(self) -> bool {
        &&& self.shape.valid()
        &&& self.cells@.len() == self.shape.spec_cell_count()
    }

    /// The shape of the matrix.
    pub closed spec fn spec_shape(self) -> Shape {
        self.shape
    }

    /// The buffer of the matrix.
    pub closed spec fn spec_cells(self) -> Seq<T> {
        self.cells@
    }

    /// The number of rows.
    pub open spec fn row_count(self) -> int {
        self.spec_shape().spec_rows() as int
    }

    /// The number of columns.
    pub open spec fn col_count(self) -> int {
        self.spec_shape().spec_cols() as int
    }

    /// Whether a buffer holds a matrix of the given dimensions: the
    /// dimensions are those of a matrix, and the buffer has one cell for
    /// each place.
    pub open spec fn admits(rows: int, cols: int, len: int) -> bool {
        &&& valid_dims(rows, cols)
        &&& len == rows * cols
    }

    /// The matrix is the one of `rows` by `cols` whose rows lie one after
    /// the other in `cells`.
    pub open spec fn holds(self, rows: int, cols: int, cells: Seq<T>) -> bool {
        &&& self.row_count() == rows
        &&& self.col_count() == cols
        &&& self.spec_cells() == cells
        &&& self@ == grid_of(rows, cols, cells)
        &&& rectangular(self@, rows, cols)
    }

    /// The matrix of `rows` by `cols` whose rows lie one after the other in
    /// `cells`.
    pub fn from_vec(rows: usize, cols: usize, cells: Vec<T>) -> (r: Result<Matrix<T>, KernelError>)
        ensures
            match r {
                Ok(m) => Matrix::<T>::admits(rows as int, cols as int, cells@.len() as int)
                    && m.holds(rows as int, cols as int, cells@),
                Err(e) => !Matrix::<T>::admits(rows as int, cols as int, cells@.len() as int)
                    && e == KernelError::ShapeMismatch,
            },
    {
        match Shape::new(rows, cols) {
            Ok(shape) => Matrix::with_shape(shape, cells),
            Err(e) => Err(e),
        }
    }

    /// The matrix of the given shape whose rows lie one after the other in
    /// `cells`.
    pub fn with_shape(shape: Shape, cells: Vec<T>) -> (r: Result<Matrix<T>, KernelError>)
        ensures
            match r {
                Ok(m) => cells@.len() == shape.spec_cell_count() && m.spec_shape() == shape
                    && m.holds(shape.spec_rows() as int, shape.spec_cols() as int, cells@),
                Err(e) => cells@.len() != shape.spec_cell_count() && e
                    == KernelError::ShapeMismatch,
            },
    {
        if cells.len() == shape.cell_count() {
            Ok(Matrix::assemble(shape, cells))
        } else {
            Err(KernelError::ShapeMismatch)
        }
    }

    /// The matrix of the given shape over a buffer that is known to have
    /// one cell for each place.
    pub(crate) fn assemble(shape: Shape, cells: Vec<T>) -> (m: Matrix<T>)
        requires
            cells@.len() == shape.spec_cell_count(),
        ensures
            m.spec_shape() == shape,
            m.holds(shape.spec_rows() as int, shape.spec_cols() as int, cells@),
    {
        proof {
            use_type_invariant(&shape);
        }
        Matrix { shape, cells }
    }

    /// The shape of the matrix.
    pub fn shape(&self) -> (s: Shape)
        ensures
            s == self.spec_shape(),
            s.valid(),
            self.holds(s.spec_rows() as int, s.spec_cols() as int, self.spec_cells()),
            self.spec_cells().len() == s.spec_cell_count(),
    {
        proof {
            use_type_invariant(self);
        }
        self.shape
    }

    /// The number of rows.
    pub fn rows(&self) -> (n: usize)
        ensures
            n == self@.len(),
            n >= 1,
    {
        self.shape.rows()
    }

    /// The number of columns.
    pub fn cols(&self) -> (n: usize)
        ensures
            n == self@[0].len(),
            n >= 1,
    {
        proof {
            use_type_invariant(self);
        }
        self.shape.cols()
    }

    /// The buffer: the rows of the matrix one after the other.
    pub fn cells(&self) -> (cells: &Vec<T>)
        ensures
            cells@ == self.spec_cells(),
            cells@ == row_major(self@),
    {
        proof {
            use_type_invariant(self);
            law_row_major_round_trip(
                self.shape.spec_rows() as int,
                self.shape.spec_cols() as int,
                self.cells@,
            );
        }
        &self.cells
    }

    /// Gives up the matrix for its buffer.
    pub fn into_cells(self) -> (cells: Vec<T>)
        ensures
            cells@ == self.spec_cells(),
            cells@ == row_major(self@),
    {
        proof {
            use_type_invariant(&self);
            law_row_major_round_trip(
                self.shape.spec_rows() as int,
                self.shape.spec_cols() as int,
                self.cells@,
            );
        }
        self.cells
    }
}

impl<T: Copy> Clone for Matrix<T> {
    /// A matrix of the same shape over a buffer of its own with the same
    /// cells.
    fn clone(&self) -> (copy: Self)
        ensures
            copy@ == self@,
            copy.spec_cells() == self.spec_cells(),
            copy.spec_shape() == self.spec_shape(),
    {
        proof {
            use_type_invariant(self);
        }
        let mut cells: Vec<T> = Vec::with_capacity(self.cells.len());
        let mut k: usize = 0;
        while k < self.cells.len()
            invariant
                k <= self.cells@.len(),
                cells@ == self.cells@.take(k as int),
            decreases self.cells@.len() - k,
        {
            cells.push(self.cells[k]);
            proof {
                assert(cells@ =~= self.cells@.take(k + 1));
            }
            k += 1;
        }
        proof {
            assert(cells@ =~= self.cells@);
        }
        Matrix::assemble(self.shape, cells)
    }
}

impl<T: Copy> Matrix<T> {
    /// The cell in row `i` and column `j`, if the matrix has one there.
    pub fn get(&self, i: usize, j: usize) -> (r: Option<T>)
        ensures
            match r {
                Some(x) => i < self@.len() && j < self@[0].len() && x == self@[i as int][j as int],
                None => i >= self@.len() || j >= self@[0].len(),
            },
    {
        proof {
            use_type_invariant(self);
        }
        match self.shape.offset_of(i, j) {
            Some(k) => Some(self.cells[k]),
            None => None,
        }
    }
}

/// The transposed matrix: a matrix of `a.cols()` by `a.rows()` whose cell
/// in row `j` and column `i` is the cell of `a` in row `i` and column `j`.
/// No cell is changed, only moved.
pub fn transpose<T: Copy>(a: &Matrix<T>) -> (t: Matrix<T>)
    ensures
        t@ == transposed(a@),
        transposed(t@) == a@,
        t.row_count() == a.col_count(),
        t.col_count() == a.row_count(),
        rectangular(t@, a.col_count(), a.row_count()),
{
    let shape = a.shape();
    let rows: usize = shape.rows();
    let cols: usize = shape.cols();
    let count: usize = shape.cell_count();
    let ghost src = a.spec_cells();
    let cells = a.cells();
    let mut out: Vec<T> = Vec::with_capacity(count);
    let mut i: usize = 0;
    while i < cols
        invariant
            valid_dims(rows as int, cols as int),
            cells@ == src,
            src.len() == rows * cols,
            i <= cols,
            out@.len() == i * rows,
            forall|p: int, q: int|
                0 <= p < i && 0 <= q < rows ==> #[trigger] out@[offset(p, q, rows as int)]
                    == src[offset(q, p, cols as int)],
        decreases cols - i,
    {
        let mut j: usize = 0;
        while j < rows
            invariant
                valid_dims(rows as int, cols as int),
                cells@ == src,
                src.len() == rows * cols,
                i < cols,
                j <= rows,
                out@.len() == i * rows + j,
                forall|p: int, q: int|
                    0 <= p < i && 0 <= q < rows ==> #[trigger] out@[offset(p, q, rows as int)]
                        == src[offset(q, p, cols as int)],
                forall|q: int|
                    0 <= q < j ==> #[trigger] out@[offset(i as int, q, rows as int)]
                        == src[offset(q, i as int, cols as int)],
            decreases rows - j,
        {
            proof {
                lemma_offset_in_buffer(j as int, i as int, rows as int, cols as int);
                assert forall|p: int, q: int| 0 <= p < i && 0 <= q < rows implies offset(
                    p,
                    q,
                    rows as int,
                ) < i * rows by {
                    lemma_offset_in_buffer(p, q, i as int, rows as int);
                }
            }
            out.push(cells[j * cols + i]);
            j += 1;
        }
        proof {
            assert((i + 1) * rows == i * rows + rows) by (nonlinear_arith);
        }
        i += 1;
    }
    let t_shape = shape.transposed();
    proof {
        assert(cols * rows == rows * cols) by (nonlinear_arith);
    }
    let t = Matrix::assemble(t_shape, out);
    proof {
        let g = a@;
        assert(g[0].len() == cols);
        assert forall|p: int| 0 <= p < cols implies #[trigger] t@[p] =~= transposed(g)[p] by {
            assert forall|q: int| 0 <= q < rows implies t@[p][q] == transposed(g)[p][q] by {
                assert(out@[offset(p, q, rows as int)] == src[offset(q, p, cols as int)]);
                assert(g[q].len() == cols);
            }
        }
        assert(t@ =~= transposed(g));
        law_transpose_is_an_involution(g, rows as int, cols as int);
    }
    t
}

} // verus!
