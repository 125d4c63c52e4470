//! The failures of the kernel, their status codes and their messages.

use vstd::prelude::*;

verus! {

/// Why an operation did not produce a result.
#[derive(Clone, Copy, Debug, PartialEq, Eq, Structural)]
pub enum KernelError {
    /// The dimensions of the operands do not fit each other, or a buffer
    /// does not hold what its declared dimensions ask for.
    ShapeMismatch,
    /// The operation needs a square matrix.
    NotSquare,
    /// A vector of norm zero cannot be scaled to unit length.
    DegenerateNorm,
    /// The matrix has no inverse.
    SingularMatrix,
    /// The numerical routine did not converge, broke down, or handed back
    /// something that is not the decomposition asked for.
    DecompositionFailure,
}

/// What a numerical routine reports when it gives up, one variant for each
/// report that the routines behind this kernel can make.
#[derive(Clone, Copy, Debug, PartialEq, Eq, Structural)]
pub enum Fault {
    /// The routine needs a square matrix and got another.
    NotSquare,
    /// The factorization routine rejected one of its arguments.
    InvalidValue,
    /// The factorization routine ran and failed: it met an exactly zero
    /// pivot, or its iteration did not converge.
    ComputationalFailure,
    /// The routine cannot work on a matrix of this shape.
    InvalidShape,
    /// The routine cannot walk the matrix with the strides it was given.
    InvalidStride,
    /// The cells of the matrix are not contiguous in memory.
    MemoryNotContiguous,
    /// The result cannot be laid out as a matrix of the expected shape.
    NotStandardShape,
    /// An array could not be built from the shape and the buffer.
    ShapeRejected,
}

/// The status code of success.
pub const STATUS_OK: i32 = 0;

/// The status code that tells a caller that dropping the imaginary parts of
/// a complex result would have lost more than the tolerance allows.
pub const STATUS_PRECISION_LOSS: i32 = 6;

impl KernelError {
    /// The status code that stands for this failure where no richer error
    /// channel exists. Never `STATUS_OK`, and different for each failure.
    pub open spec fn spec_status_code(self) -> i32 {
        match self {
            KernelError::ShapeMismatch => 1,
            KernelError::NotSquare => 2,
            KernelError::DegenerateNorm => 3,
            KernelError::SingularMatrix => 4,
            KernelError::DecompositionFailure => 5,
        }
    }

    /// The status code of this failure, as the machine holds it.
    #[verifier::when_used_as_spec(spec_status_code)]
    pub fn status_code(self) -> (code: i32)
        ensures
            code == self.spec_status_code(),
    {
        match self {
            KernelError::ShapeMismatch => 1,
            KernelError::NotSquare => 2,
            KernelError::DegenerateNorm => 3,
            KernelError::SingularMatrix => 4,
            KernelError::DecompositionFailure => 5,
        }
    }

    /// The failure that a status code stands for, if it stands for one.
    pub fn from_status_code(code: i32) -> (r: Option<KernelError>)
        ensures
            match r {
                Some(e) => e.spec_status_code() == code,
                None => forall|e: KernelError| e.spec_status_code() != code,
            },
    {
        if code == 1 {
            Some(KernelError::ShapeMismatch)
        } else if code == 2 {
            Some(KernelError::NotSquare)
        } else if code == 3 {
            Some(KernelError::DegenerateNorm)
        } else if code == 4 {
            Some(KernelError::SingularMatrix)
        } else if code == 5 {
            Some(KernelError::DecompositionFailure)
        } else {
            None
        }
    }

    /// The text of the message for this failure.
    pub open spec fn text(self) -> Seq<char> {
        match self {
            KernelError::ShapeMismatch => "shape mismatch: operand dimensions are incompatible"@,
            KernelError::NotSquare => "not square: the operation requires a square matrix"@,
            KernelError::DegenerateNorm => "degenerate norm: a zero vector cannot be normalized"@,
            KernelError::SingularMatrix => "singular matrix: no inverse exists"@,
            KernelError::DecompositionFailure => "decomposition failure: the numerical routine did not converge or broke down"@,
        }
    }

    /// A message for a human reader.
    pub fn message(self) -> (s: String)
        ensures
            s@ == self.text(),
    {
        match self {
            KernelError::ShapeMismatch => "shape mismatch: operand dimensions are incompatible".to_owned(),
            KernelError::NotSquare => "not square: the operation requires a square matrix".to_owned(),
            KernelError::DegenerateNorm => "degenerate norm: a zero vector cannot be normalized".to_owned(),
            KernelError::SingularMatrix => "singular matrix: no inverse exists".to_owned(),
            KernelError::DecompositionFailure => "decomposition failure: the numerical routine did not converge or broke down".to_owned(),
        }
    }

    /// The failure that a fault of a numerical routine amounts to, for every
    /// operation but inversion.
    pub open spec fn spec_of_fault(fault: Fault) -> KernelError {
        match fault {
            Fault::NotSquare => KernelError::NotSquare,
            _ => KernelError::DecompositionFailure,
        }
    }

    /// Maps a fault to a failure, for every operation but inversion.
    #[verifier::when_used_as_spec(spec_of_fault)]
    pub fn of_fault(fault: Fault) -> (e: KernelError)
        ensures
            e == KernelError::spec_of_fault(fault),
    {
        match fault {
            Fault::NotSquare => KernelError::NotSquare,
            _ => KernelError::DecompositionFailure,
        }
    }

    /// The failure that a fault amounts to when a matrix is inverted. The
    /// factorization fails in its computation exactly when it meets a zero
    /// pivot, and then the matrix has no inverse.
    pub open spec fn spec_of_inverse_fault(fault: Fault) -> KernelError {
        match fault {
            Fault::NotSquare => KernelError::NotSquare,
            Fault::ComputationalFailure => KernelError::SingularMatrix,
            _ => KernelError::DecompositionFailure,
        }
    }

    /// Maps a fault of an inversion to a failure.
    #[verifier::when_used_as_spec(spec_of_inverse_fault)]
    pub fn of_inverse_fault(fault: Fault) -> (e: KernelError)
        ensures
            e == KernelError::spec_of_inverse_fault(fault),
    {
        match fault {
            Fault::NotSquare => KernelError::NotSquare,
            Fault::ComputationalFailure => KernelError::SingularMatrix,
            _ => KernelError::DecompositionFailure,
        }
    }
}

/// The status code of an outcome: `STATUS_OK` for a result, the failure's
/// code otherwise.
pub fn status_of<T>(outcome: &Result<T, KernelError>) -> (code: i32)
    ensures
        match outcome {
            Ok(_) => code == STATUS_OK,
            Err(e) => code == e.spec_status_code(),
        },
{
    match outcome {
        Ok(_) => STATUS_OK,
        Err(e) => e.status_code(),
    }
}

/// A status code tells success from failure and one failure from another:
/// no failure has the code of success or of lost precision, and two
/// failures with the same code are the same failure.
pub proof fn law_status_codes_are_distinct(e1: KernelError, e2: KernelError)
    ensures
        e1.spec_status_code() != STATUS_OK,
        e1.spec_status_code() != STATUS_PRECISION_LOSS,
        e1.spec_status_code() == e2.spec_status_code() ==> e1 == e2,
{
}

} // verus!
