use linalg_kernel::error::{Fault, KernelError};
use linalg_kernel::factor::{is_upper_trapezoidal, qr_decompose, svd_decompose};
use linalg_kernel::matrix::{transpose, Matrix};
use linalg_kernel::scalar::Real;
use nalgebra::DMatrix;

fn num(x: f64) -> Real {
    Real::from_bits(x.to_bits())
}

fn val(x: Real) -> f64 {
    f64::from_bits(x.to_bits())
}

fn nums(xs: &[f64]) -> Vec<Real> {
    xs.iter().map(|x| num(*x)).collect()
}

fn matrix(rows: usize, cols: usize, xs: &[f64]) -> Matrix<Real> {
    Matrix::from_vec(rows, cols, nums(xs)).unwrap()
}

fn dense(m: &Matrix<Real>) -> DMatrix<f64> {
    let cells: Vec<f64> = m.cells().iter().map(|x| val(*x)).collect();
    DMatrix::from_row_slice(m.rows(), m.cols(), &cells)
}

fn row_major(m: &DMatrix<f64>) -> Vec<Real> {
    let mut cells = Vec::new();
    for i in 0..m.nrows() {
        for j in 0..m.ncols() {
            cells.push(num(m[(i, j)]));
        }
    }
    cells
}

fn assert_close(left: &DMatrix<f64>, right: &DMatrix<f64>) {
    assert_eq!(left.shape(), right.shape());
    for i in 0..left.nrows() {
        for j in 0..left.ncols() {
            assert!((left[(i, j)] - right[(i, j)]).abs() < 1e-9, "cell ({i}, {j})");
        }
    }
}

const IDENTITY_2: [f64; 4] = [1.0, 0.0, 0.0, 1.0];
const IDENTITY_3: [f64; 9] = [1.0, 0.0, 0.0, 0.0, 1.0, 0.0, 0.0, 0.0, 1.0];

#[test]
fn qr_of_the_identity_is_the_identity_twice() {
    let a = matrix(2, 2, &IDENTITY_2);
    let qr = qr_decompose(&a, Ok((nums(&IDENTITY_2), nums(&IDENTITY_2)))).unwrap();
    assert_close(&dense(&qr.q), &DMatrix::identity(2, 2));
    assert_close(&dense(&qr.r), &DMatrix::identity(2, 2));
}

#[test]
fn qr_factors_multiply_to_the_matrix() {
    for (rows, cols, cells) in [
        (3usize, 2usize, vec![1.0, 2.0, 3.0, 4.0, 5.0, 6.0]),
        (3, 3, vec![2.0, -1.0, 0.0, -1.0, 2.0, -1.0, 0.0, -1.0, 2.0]),
        (2, 2, vec![1.0, 2.0, 2.0, 4.0]),
    ] {
        let a = matrix(rows, cols, &cells);
        let factors = dense(&a).qr();
        let computed = Ok((row_major(&factors.q()), row_major(&factors.r())));
        let qr = qr_decompose(&a, computed).unwrap();
        let k = rows.min(cols);
        assert_eq!((qr.q.rows(), qr.q.cols()), (rows, k));
        assert_eq!((qr.r.rows(), qr.r.cols()), (k, cols));
        assert!(is_upper_trapezoidal(&qr.r));
        assert_close(&(dense(&qr.q) * dense(&qr.r)), &dense(&a));
        assert_close(&(dense(&transpose(&qr.q)) * dense(&qr.q)), &DMatrix::identity(k, k));
    }
}

#[test]
fn qr_of_a_wide_matrix_has_a_trapezoidal_factor() {
    let a = matrix(2, 3, &[1.0, 0.0, 2.0, 0.0, 1.0, 3.0]);
    let qr = qr_decompose(&a, Ok((nums(&IDENTITY_2), nums(&[1.0, 0.0, 2.0, 0.0, 1.0, 3.0])))).unwrap();
    assert_eq!((qr.q.rows(), qr.q.cols()), (2, 2));
    assert_eq!((qr.r.rows(), qr.r.cols()), (2, 3));
    assert_close(&(dense(&qr.q) * dense(&qr.r)), &dense(&a));
}

#[test]
fn qr_refuses_a_second_factor_with_a_cell_below_the_diagonal() {
    let a = matrix(2, 2, &IDENTITY_2);
    let r = qr_decompose(&a, Ok((nums(&IDENTITY_2), nums(&[1.0, 0.0, 1e-300, 1.0]))));
    assert_eq!(r.unwrap_err(), KernelError::DecompositionFailure);
    let r = qr_decompose(&a, Ok((nums(&IDENTITY_2), nums(&[1.0, 0.0, f64::NAN, 1.0]))));
    assert_eq!(r.unwrap_err(), KernelError::DecompositionFailure);
    let r = qr_decompose(&a, Ok((nums(&IDENTITY_2), nums(&[1.0, 0.0, -0.0, 1.0]))));
    assert!(r.is_ok());
}

#[test]
fn qr_refuses_factors_of_the_wrong_size() {
    let a = matrix(3, 2, &[1.0, 2.0, 3.0, 4.0, 5.0, 6.0]);
    let q = [1.0, 0.0, 0.0, 1.0, 0.0, 0.0];
    let r = [1.0, 2.0, 0.0, 1.0];
    assert!(qr_decompose(&a, Ok((nums(&q), nums(&r)))).is_ok());
    for (q_cells, r_cells) in [
        (nums(&IDENTITY_3), nums(&[1.0, 2.0, 0.0, 1.0, 0.0, 0.0])),
        (nums(&q[..5]), nums(&r)),
        (nums(&q), nums(&r[..3])),
        (nums(&q), nums(&[0.0; 9])),
        (Vec::new(), Vec::new()),
    ] {
        assert_eq!(
            qr_decompose(&a, Ok((q_cells, r_cells))).unwrap_err(),
            KernelError::DecompositionFailure
        );
    }
}

#[test]
fn qr_fails_when_the_routine_reports_a_fault() {
    let a = matrix(2, 2, &IDENTITY_2);
    assert_eq!(
        qr_decompose(&a, Err(Fault::ComputationalFailure)).unwrap_err(),
        KernelError::DecompositionFailure
    );
    assert_eq!(
        qr_decompose(&a, Err(Fault::InvalidStride)).unwrap_err(),
        KernelError::DecompositionFailure
    );
}

#[test]
fn upper_trapezoidal_looks_below_the_diagonal_only() {
    assert!(is_upper_trapezoidal(&matrix(2, 2, &[1.0, 2.0, 0.0, 3.0])));
    assert!(is_upper_trapezoidal(&matrix(1, 3, &[1.0, 2.0, 3.0])));
    assert!(is_upper_trapezoidal(&matrix(2, 3, &[1.0, 2.0, 3.0, 0.0, 4.0, 5.0])));
    assert!(is_upper_trapezoidal(&matrix(3, 2, &[1.0, 2.0, 0.0, 3.0, 0.0, 0.0])));
    assert!(is_upper_trapezoidal(&matrix(3, 1, &[1.0, -0.0, 0.0])));
    assert!(!is_upper_trapezoidal(&matrix(2, 2, &[1.0, 2.0, 3.0, 4.0])));
    assert!(!is_upper_trapezoidal(&matrix(3, 2, &[1.0, 2.0, 0.0, 3.0, 0.0, 1.0])));
    assert!(!is_upper_trapezoidal(&matrix(3, 2, &[1.0, 2.0, 0.0, 3.0, 1.0, 0.0])));
    assert!(!is_upper_trapezoidal(&matrix(3, 1, &[1.0, 0.0, 2.0])));
    assert!(!is_upper_trapezoidal(&matrix(3, 3, &[1.0, 0.0, 0.0, 0.0, 1.0, 0.0, 0.0, 5e-324, 1.0])));
}

#[test]
fn svd_of_a_3x2_matrix_has_two_values_and_square_factors() {
    let a = matrix(3, 2, &[3.0, 0.0, 0.0, 2.0, 0.0, 0.0]);
    let computed = Ok((Some(nums(&IDENTITY_3)), nums(&[3.0, 2.0]), Some(nums(&IDENTITY_2))));
    let svd = svd_decompose(&a, computed).unwrap();
    assert_eq!(svd.s.len(), 2);
    assert!(val(svd.s[0]) >= val(svd.s[1]));
    assert!(val(svd.s[1]) >= 0.0);
    assert_eq!((svd.u.rows(), svd.u.cols()), (3, 3));
    assert_eq!((svd.vt.rows(), svd.vt.cols()), (2, 2));
    let mut sigma = DMatrix::zeros(3, 2);
    for (k, s) in svd.s.iter().enumerate() {
        sigma[(k, k)] = val(*s);
    }
    assert_close(&(dense(&svd.u) * (sigma * dense(&svd.vt))), &dense(&a));
}

#[test]
fn svd_of_a_2x3_matrix_has_two_values_and_square_factors() {
    let a = matrix(2, 3, &[0.0, 5.0, 0.0, 1.0, 0.0, 0.0]);
    let vt = [0.0, 1.0, 0.0, 1.0, 0.0, 0.0, 0.0, 0.0, 1.0];
    let computed = Ok((Some(nums(&IDENTITY_2)), nums(&[5.0, 1.0]), Some(nums(&vt))));
    let svd = svd_decompose(&a, computed).unwrap();
    assert_eq!((svd.u.rows(), svd.u.cols()), (2, 2));
    assert_eq!((svd.vt.rows(), svd.vt.cols()), (3, 3));
    assert_eq!(svd.s, nums(&[5.0, 1.0]));
    let mut sigma = DMatrix::zeros(2, 3);
    for (k, s) in svd.s.iter().enumerate() {
        sigma[(k, k)] = val(*s);
    }
    assert_close(&(dense(&svd.u) * (sigma * dense(&svd.vt))), &dense(&a));
}

#[test]
fn svd_without_its_left_factor_fails() {
    let a = matrix(3, 2, &[3.0, 0.0, 0.0, 2.0, 0.0, 0.0]);
    let computed = Ok((None, nums(&[3.0, 2.0]), Some(nums(&IDENTITY_2))));
    assert_eq!(svd_decompose(&a, computed).unwrap_err(), KernelError::DecompositionFailure);
}

#[test]
fn svd_without_its_right_factor_fails() {
    let a = matrix(3, 2, &[3.0, 0.0, 0.0, 2.0, 0.0, 0.0]);
    let computed = Ok((Some(nums(&IDENTITY_3)), nums(&[3.0, 2.0]), None));
    assert_eq!(svd_decompose(&a, computed).unwrap_err(), KernelError::DecompositionFailure);
    let computed = Ok((None, nums(&[3.0, 2.0]), None));
    assert_eq!(svd_decompose(&a, computed).unwrap_err(), KernelError::DecompositionFailure);
}

#[test]
fn svd_refuses_values_that_do_not_descend() {
    let a = matrix(3, 2, &[3.0, 0.0, 0.0, 2.0, 0.0, 0.0]);
    for s in [[2.0, 3.0], [1.0, -1.0], [-0.5, -1.0], [f64::NAN, 1.0], [1.0, f64::NAN]] {
        let computed = Ok((Some(nums(&IDENTITY_3)), nums(&s), Some(nums(&IDENTITY_2))));
        assert_eq!(
            svd_decompose(&a, computed).unwrap_err(),
            KernelError::DecompositionFailure,
            "{s:?}"
        );
    }
    for s in [[3.0, 3.0], [1.0, 0.0], [0.0, 0.0], [f64::INFINITY, 0.0]] {
        let computed = Ok((Some(nums(&IDENTITY_3)), nums(&s), Some(nums(&IDENTITY_2))));
        assert!(svd_decompose(&a, computed).is_ok(), "{s:?}");
    }
}

#[test]
fn svd_refuses_parts_of_the_wrong_size() {
    let a = matrix(3, 2, &[3.0, 0.0, 0.0, 2.0, 0.0, 0.0]);
    let thin_u = [1.0, 0.0, 0.0, 1.0, 0.0, 0.0];
    for (u, s, vt) in [
        (nums(&thin_u), nums(&[3.0, 2.0]), nums(&IDENTITY_2)),
        (nums(&IDENTITY_3), nums(&[3.0]), nums(&IDENTITY_2)),
        (nums(&IDENTITY_3), nums(&[3.0, 2.0, 0.0]), nums(&IDENTITY_2)),
        (nums(&IDENTITY_3), nums(&[3.0, 2.0]), nums(&IDENTITY_3)),
        (nums(&IDENTITY_3), nums(&[3.0, 2.0]), nums(&[1.0])),
        (Vec::new(), Vec::new(), Vec::new()),
    ] {
        let computed = Ok((Some(u), s, Some(vt)));
        assert_eq!(svd_decompose(&a, computed).unwrap_err(), KernelError::DecompositionFailure);
    }
}

#[test]
fn svd_fails_when_the_routine_does_not_converge() {
    let a = matrix(3, 2, &[3.0, 0.0, 0.0, 2.0, 0.0, 0.0]);
    assert_eq!(
        svd_decompose(&a, Err(Fault::ComputationalFailure)).unwrap_err(),
        KernelError::DecompositionFailure
    );
    assert_eq!(
        svd_decompose(&a, Err(Fault::InvalidValue)).unwrap_err(),
        KernelError::DecompositionFailure
    );
}
