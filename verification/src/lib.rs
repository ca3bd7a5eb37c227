//! A minimal, shape-aware tensor computation core.
//!
//! The library owns the tensor data model, row-major index arithmetic, the
//! broadcasting engine, and an operation framework whose numeric kernels are
//! delegated to a pluggable [`backend::Backend`].

use vstd::prelude::*;

pub mod backend;
pub mod broadcast;
pub mod laws;
pub mod ops;
pub mod reduce;
pub mod shape;
pub mod tensor;

verus! {

/// Result type used by all fallible tensor operations.
pub type MlResult<T> = Result<T, crate::tensor::TensorError>;

} // verus!
