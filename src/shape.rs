use vstd::prelude::*;

use crate::DIM;

verus! {

/// Why a flat buffer cannot be read as a candidate matrix.
#[derive(Debug, Clone, Copy, PartialEq, Eq, Structural)]
pub enum ShapeError {
    /// A buffer meant to hold one embedding has the wrong number of components.
    DimensionMismatch { expected: usize, found: usize },
    /// A flat buffer does not hold exactly `rows * DIM` components.
    BufferLength { rows: usize, found: usize },
}

/// The number of components an `rows x DIM` matrix holds.
pub open spec fn matrix_len(rows: nat) -> nat {
    rows * DIM as nat
}

/// Checks that a flat buffer of `buffer_len` components is exactly an
/// `rows x DIM` matrix and returns that shape.
pub fn batch_shape(rows: usize, buffer_len: usize) -> (r: Result<(usize, usize), ShapeError>)
    ensures
        buffer_len as nat == matrix_len(rows as nat) ==> r == Ok::<(usize, usize), ShapeError>(
            (rows, DIM),
        ),
        buffer_len as nat != matrix_len(rows as nat) ==> r == Err::<(usize, usize), ShapeError>(
            ShapeError::BufferLength { rows, found: buffer_len },
        ),
{
    if rows <= usize::MAX / DIM && rows * DIM == buffer_len {
        Ok((rows, DIM))
    } else {
        proof {
            if rows <= usize::MAX / DIM {
                assert(rows * DIM != buffer_len);
            } else {
                assert(rows as nat * DIM as nat > usize::MAX) by (nonlinear_arith)
                    requires
                        rows > usize::MAX / DIM,
                        DIM == 1536,
                ;
            }
        }
        Err(ShapeError::BufferLength { rows, found: buffer_len })
    }
}

} // verus!
