use linalg_kernel::error::KernelError;
use linalg_kernel::scalar::Real;
use linalg_kernel::vector::{all_zero, dot_admits, dot_product, normalize, normalize_admits};
use nalgebra::DVector;

fn num(x: f64) -> Real {
    Real::from_bits(x.to_bits())
}

fn val(x: Real) -> f64 {
    f64::from_bits(x.to_bits())
}

fn nums(xs: &[f64]) -> Vec<Real> {
    xs.iter().map(|x| num(*x)).collect()
}

fn vals(xs: &[Real]) -> Vec<f64> {
    xs.iter().map(|x| val(*x)).collect()
}

/// The sum of products, accumulated by the arithmetic unit.
fn accumulate(a: &[f64], b: &[f64]) -> Real {
    num(DVector::from_vec(a.to_vec()).dot(&DVector::from_vec(b.to_vec())))
}

fn norm_of(a: &[f64]) -> f64 {
    DVector::from_vec(a.to_vec()).norm()
}

fn dot(a: &[f64], b: &[f64]) -> Result<f64, KernelError> {
    let (ra, rb) = (nums(a), nums(b));
    dot_admits(&ra, &rb)?;
    dot_product(&ra, &rb, accumulate(a, b)).map(val)
}

fn unit(a: &[f64]) -> Result<Vec<f64>, KernelError> {
    let ra = nums(a);
    let norm = norm_of(a);
    normalize_admits(&ra, num(norm))?;
    let scaled: Vec<f64> = a.iter().map(|x| x / norm).collect();
    normalize(&ra, num(norm), nums(&scaled)).map(|v| vals(&v))
}

#[test]
fn dot_of_1_2_3_and_4_5_6_is_32() {
    assert_eq!(dot(&[1.0, 2.0, 3.0], &[4.0, 5.0, 6.0]), Ok(32.0));
}

#[test]
fn dot_does_not_depend_on_the_order_of_the_operands() {
    let a = [1.5, -2.25, 3.0, 0.125];
    let b = [4.0, 5.5, -6.0, 8.0];
    assert_eq!(dot(&a, &b), dot(&b, &a));
    assert_eq!(dot(&a, &b), Ok(1.5 * 4.0 - 2.25 * 5.5 - 18.0 + 1.0));
}

#[test]
fn dot_of_vectors_of_different_lengths_fails() {
    let a = nums(&[1.0, 2.0, 3.0]);
    let b = nums(&[4.0, 5.0]);
    assert_eq!(dot_admits(&a, &b), Err(KernelError::ShapeMismatch));
    assert_eq!(dot_admits(&b, &a), Err(KernelError::ShapeMismatch));
    assert_eq!(dot_product(&a, &b, num(14.0)), Err(KernelError::ShapeMismatch));
    assert_eq!(dot_product(&b, &a, num(14.0)), Err(KernelError::ShapeMismatch));
    assert_eq!(dot_product(&a, &Vec::new(), num(0.0)), Err(KernelError::ShapeMismatch));
}

#[test]
fn dot_admits_gives_the_common_length() {
    assert_eq!(dot_admits(&nums(&[1.0, 2.0, 3.0]), &nums(&[4.0, 5.0, 6.0])), Ok(3));
    assert_eq!(dot_admits(&Vec::new(), &Vec::new()), Ok(0));
}

#[test]
fn dot_of_empty_vectors_is_the_empty_sum() {
    assert_eq!(dot(&[], &[]), Ok(0.0));
}

#[test]
fn dot_hands_on_the_sum_bit_for_bit() {
    let a = nums(&[1.0]);
    let sum = Real::from_bits(0x7ff8_0000_0000_1234);
    assert_eq!(dot_product(&a, &a, sum), Ok(sum));
    assert_eq!(dot_product(&a, &a, num(-0.0)), Ok(num(-0.0)));
}

#[test]
fn all_zero_tells_zero_vectors() {
    assert!(all_zero(&nums(&[0.0, -0.0, 0.0])));
    assert!(all_zero(&Vec::new()));
    assert!(!all_zero(&nums(&[0.0, 5e-324])));
    assert!(!all_zero(&nums(&[f64::NAN])));
}

#[test]
fn normalize_scales_3_4_to_unit_length() {
    let u = unit(&[3.0, 4.0]).unwrap();
    assert_eq!(u, vec![0.6, 0.8]);
    assert!((norm_of(&u) - 1.0).abs() < 1e-12);
}

#[test]
fn normalized_vectors_have_norm_one() {
    for a in [vec![1.0, 1.0, 1.0], vec![-2.0, 0.0, 5.0, 1e-3], vec![1e150, -1e150], vec![7.0]] {
        let u = unit(&a).unwrap();
        assert_eq!(u.len(), a.len());
        assert!((norm_of(&u) - 1.0).abs() < 1e-12, "{a:?}");
    }
}

#[test]
fn normalize_of_the_zero_vector_fails() {
    assert_eq!(unit(&[0.0, 0.0, 0.0]), Err(KernelError::DegenerateNorm));
    assert_eq!(unit(&[0.0, -0.0]), Err(KernelError::DegenerateNorm));
}

#[test]
fn normalize_of_the_zero_vector_fails_whatever_norm_is_handed_in() {
    let a = nums(&[0.0, -0.0]);
    assert_eq!(normalize_admits(&a, num(1.0)), Err(KernelError::DegenerateNorm));
    assert_eq!(
        normalize(&a, num(1.0), nums(&[0.0, 0.0])),
        Err(KernelError::DegenerateNorm)
    );
    assert_eq!(
        normalize(&a, num(f64::NAN), nums(&[0.0, 0.0])),
        Err(KernelError::DegenerateNorm)
    );
}

#[test]
fn normalize_of_the_empty_vector_fails() {
    assert_eq!(unit(&[]), Err(KernelError::DegenerateNorm));
    assert_eq!(normalize(&Vec::new(), num(1.0), Vec::new()), Err(KernelError::DegenerateNorm));
}

#[test]
fn normalize_fails_when_the_norm_comes_out_as_zero() {
    let a = nums(&[1e-200, 1e-200]);
    assert_eq!(normalize_admits(&a, num(0.0)), Err(KernelError::DegenerateNorm));
    assert_eq!(normalize_admits(&a, num(-0.0)), Err(KernelError::DegenerateNorm));
    assert_eq!(
        normalize(&a, num(0.0), nums(&[f64::INFINITY, f64::INFINITY])),
        Err(KernelError::DegenerateNorm)
    );
}

#[test]
fn normalize_admits_a_vector_with_a_direction() {
    assert_eq!(normalize_admits(&nums(&[0.0, 2.0]), num(2.0)), Ok(()));
    assert_eq!(normalize_admits(&nums(&[f64::NAN]), num(f64::NAN)), Ok(()));
}

#[test]
fn normalize_refuses_scaled_entries_of_another_length() {
    let a = nums(&[3.0, 4.0]);
    assert_eq!(normalize(&a, num(5.0), nums(&[0.6])), Err(KernelError::ShapeMismatch));
    assert_eq!(
        normalize(&a, num(5.0), nums(&[0.6, 0.8, 0.0])),
        Err(KernelError::ShapeMismatch)
    );
    assert_eq!(normalize(&a, num(5.0), Vec::new()), Err(KernelError::ShapeMismatch));
}

#[test]
fn normalize_hands_on_the_scaled_entries() {
    let a = nums(&[3.0, 4.0]);
    assert_eq!(normalize(&a, num(5.0), nums(&[0.6, 0.8])), Ok(nums(&[0.6, 0.8])));
}
