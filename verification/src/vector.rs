//! The operations on vectors: dot product and scaling to unit length.
//!
//! A vector is a sequence of numbers of any length, the empty one included.

use vstd::prelude::*;
use crate::error::KernelError;
use crate::scalar::Real;
use crate::shape::MAX_CELLS;

verus! {

/// Whether a vector may have `len` entries: no more than a matrix has
/// cells. The empty vector is a vector.
pub fn length_admits(len: usize) -> (r: Result<usize, KernelError>)
    ensures
        match r {
            Ok(n) => len <= MAX_CELLS && n == len,
            Err(e) => len > MAX_CELLS && e == KernelError::ShapeMismatch,
        },
{
    if len <= MAX_CELLS {
        Ok(len)
    } else {
        Err(KernelError::ShapeMismatch)
    }
}

/// Every entry of the vector is a zero. The empty vector is a zero vector.
pub open spec fn is_zero_vector(a: Seq<Real>) -> bool {
    forall|i: int| 0 <= i < a.len() ==> (#[trigger] a[i]).spec_is_zero()
}

/// Tests `is_zero_vector` entry by entry.
pub fn all_zero(a: &Vec<Real>) -> (r: bool)
    ensures
        r == is_zero_vector(a@),
{
    let mut k: usize = 0;
    while k < a.len()
        invariant
            k <= a.len(),
            forall|i: int| 0 <= i < k ==> (#[trigger] a@[i]).spec_is_zero(),
        decreases a.len() - k,
    {
        if !a[k].is_zero() {
            return false;
        }
        k += 1;
    }
    true
}

/// Whether the dot product of two vectors is defined: they have the same
/// length. Says so before anything is accumulated.
pub fn dot_admits(a: &Vec<Real>, b: &Vec<Real>) -> (r: Result<usize, KernelError>)
    ensures
        match r {
            Ok(n) => a@.len() == b@.len() && n == a@.len(),
            Err(e) => a@.len() != b@.len() && e == KernelError::ShapeMismatch,
        },
{
    if a.len() == b.len() {
        Ok(a.len())
    } else {
        Err(KernelError::ShapeMismatch)
    }
}

/// What becomes of a sum handed in as the dot product of `a` and `b`: it is
/// the result when the vectors have the same length, and no sum is
/// accepted when they do not.
pub open spec fn dot_outcome(a: Seq<Real>, b: Seq<Real>, sum: Real) -> Result<Real, KernelError> {
    if a.len() == b.len() {
        Ok(sum)
    } else {
        Err(KernelError::ShapeMismatch)
    }
}

/// The dot product of `a` and `b`, given the sum of the products of their
/// entries as the arithmetic unit accumulated it.
pub fn dot_product(a: &Vec<Real>, b: &Vec<Real>, sum: Real) -> (r: Result<Real, KernelError>)
    ensures
        r == dot_outcome(a@, b@, sum),
{
    match dot_admits(a, b) {
        Ok(_) => Ok(sum),
        Err(e) => Err(e),
    }
}

/// Exchanging the operands changes neither whether their dot product is
/// defined nor what becomes of a sum handed in for it.
pub proof fn law_dot_outcome_is_symmetric(a: Seq<Real>, b: Seq<Real>, sum: Real)
    ensures
        dot_outcome(a, b, sum) == dot_outcome(b, a, sum),
{
}

/// Whether a vector with the given Euclidean norm has no direction: it is a
/// zero vector, or its norm came out as zero.
pub open spec fn degenerate(a: Seq<Real>, norm: Real) -> bool {
    is_zero_vector(a) || norm.spec_is_zero()
}

/// Whether `a`, whose Euclidean norm is `norm`, can be scaled to unit
/// length. Says so before any entry is divided.
pub fn normalize_admits(a: &Vec<Real>, norm: Real) -> (r: Result<(), KernelError>)
    ensures
        match r {
            Ok(_) => !degenerate(a@, norm),
            Err(e) => degenerate(a@, norm) && e == KernelError::DegenerateNorm,
        },
{
    if norm.is_zero() || all_zero(a) {
        Err(KernelError::DegenerateNorm)
    } else {
        Ok(())
    }
}

/// Why `normalize` fails, if it does: on a vector without direction with
/// `DegenerateNorm`, and otherwise with `ShapeMismatch` when the scaled
/// entries are not as many as the entries of the vector.
pub open spec fn normalize_failure(a: Seq<Real>, norm: Real, scaled: Seq<Real>) -> Option<
    KernelError,
> {
    if degenerate(a, norm) {
        Some(KernelError::DegenerateNorm)
    } else if scaled.len() != a.len() {
        Some(KernelError::ShapeMismatch)
    } else {
        None
    }
}

/// The unit vector in the direction of `a`, given the Euclidean norm of `a`
/// and the entries of `a` divided by it, both as the arithmetic unit
/// computed them. A zero vector has no unit vector, whatever norm is handed
/// in with it.
pub fn normalize(a: &Vec<Real>, norm: Real, scaled: Vec<Real>) -> (r: Result<
    Vec<Real>,
    KernelError,
>)
    ensures
        match r {
            Ok(unit) => normalize_failure(a@, norm, scaled@) is None && unit@ == scaled@,
            Err(e) => normalize_failure(a@, norm, scaled@) == Some(e),
        },
        is_zero_vector(a@) ==> r == Err::<Vec<Real>, KernelError>(KernelError::DegenerateNorm),
{
    match normalize_admits(a, norm) {
        Ok(_) => {
            if scaled.len() == a.len() {
                Ok(scaled)
            } else {
                Err(KernelError::ShapeMismatch)
            }
        },
        Err(e) => Err(e),
    }
}

} // verus!
