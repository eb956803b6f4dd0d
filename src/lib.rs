//! Layout and shape logic for comparing fixed-dimension embeddings.
//!
//! An embedding is a row of `DIM` components. The numeric kernels themselves
//! (dot products, the cosine-distance transform, sampling) work on 32-bit
//! floats and live outside this crate; what is here is everything around them
//! that can be stated exactly: validating that a buffer has the embedding
//! dimension, laying candidates out as one row-major matrix buffer, and
//! checking that a flat buffer has the shape a batched kernel expects.

use vstd::prelude::*;

pub mod layout;
pub mod shape;

verus! {

/// The dimension of every embedding, shared by the embedding type and the
/// batched operation's matrix shape.
pub const DIM: usize = 1536;

} // verus!
