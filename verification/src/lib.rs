//! Shape rules, layout and result checks of a dense linear-algebra kernel.
//!
//! Numbers are held by their bit patterns, matrices as row-major buffers.
//! The floating-point routines themselves run outside this crate: every
//! operation here takes what such a routine produced, decides whether the
//! operands allowed the operation, and seals the result or names the failure.

pub mod error;
pub mod factor;
pub mod matrix;
pub mod product;
pub mod scalar;
pub mod shape;
pub mod square;
pub mod vector;
