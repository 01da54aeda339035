//! Shape checks for vector and matrix products: which operands a product
//! refuses, and why.
use vstd::prelude::*;

verus! {

/// Why two operands cannot be multiplied.
#[derive(Debug, Clone, Copy, PartialEq, Eq, Structural)]
pub enum MatrixError {
    /// An operand has no elements.
    EmptyVector,
    /// The operands' inner dimensions differ.
    DimensionMismatch,
    /// A matrix has rows of different lengths.
    InvalidShape,
}

/// The outcome of checking two vectors of lengths `len1` and `len2` for a dot product.
pub open spec fn dot_product_shape(len1: nat, len2: nat) -> Result<(), MatrixError> {
    if len1 == 0 || len2 == 0 {
        Err(MatrixError::EmptyVector)
    } else if len1 != len2 {
        Err(MatrixError::DimensionMismatch)
    } else {
        Ok(())
    }
}

/// Every row is as long as the first.
pub open spec fn rectangular(row_lens: Seq<usize>) -> bool {
    forall|i: int| 0 <= i < row_lens.len() ==> #[trigger] row_lens[i] == row_lens[0]
}

/// The outcome of checking two matrices, given by the lengths of their rows,
/// for a product.
pub open spec fn product_shape(left: Seq<usize>, right: Seq<usize>) -> Result<(), MatrixError> {
    if left.len() == 0 || right.len() == 0 {
        Err(MatrixError::EmptyVector)
    } else if !rectangular(left) || !rectangular(right) {
        Err(MatrixError::InvalidShape)
    } else if left[0] != right.len() {
        Err(MatrixError::DimensionMismatch)
    } else {
        Ok(())
    }
}

/// Check two vectors for a dot product: both non-empty and of one length.
pub fn validate_dot_product(len1: usize, len2: usize) -> (r: Result<(), MatrixError>)
    ensures
        r == dot_product_shape(len1 as nat, len2 as nat),
{
    if len1 == 0 || len2 == 0 {
        Err(MatrixError::EmptyVector)
    } else if len1 != len2 {
        Err(MatrixError::DimensionMismatch)
    } else {
        Ok(())
    }
}

/// Whether every row is as long as the first.
fn is_rectangular(row_lens: &[usize]) -> (b: bool)
    ensures
        b == rectangular(row_lens@),
{
    let mut i: usize = 0;
    while i < row_lens.len()
        invariant
            i <= row_lens@.len(),
            forall|k: int| 0 <= k < i ==> #[trigger] row_lens@[k] == row_lens@[0],
        decreases row_lens@.len() - i,
    {
        if row_lens[i] != row_lens[0] {
            return false;
        }
        i += 1;
    }
    true
}

/// Check two matrices, given by the lengths of their rows, for a product: both
/// non-empty, each with rows of one length, and the left one's rows as long as
/// the right one has rows.
pub fn validate_product(left_row_lens: &[usize], right_row_lens: &[usize]) -> (r: Result<
    (),
    MatrixError,
>)
    ensures
        r == product_shape(left_row_lens@, right_row_lens@),
{
    if left_row_lens.len() == 0 || right_row_lens.len() == 0 {
        Err(MatrixError::EmptyVector)
    } else if !is_rectangular(left_row_lens) || !is_rectangular(right_row_lens) {
        Err(MatrixError::InvalidShape)
    } else if left_row_lens[0] != right_row_lens.len() {
        Err(MatrixError::DimensionMismatch)
    } else {
        Ok(())
    }
}

} // verus!
