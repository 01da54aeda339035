use aspirin::matrices::{validate_dot_product, validate_product, MatrixError};

#[test]
fn dot_product_shapes() {
    assert_eq!(validate_dot_product(0, 0), Err(MatrixError::EmptyVector));
    assert_eq!(validate_dot_product(4, 0), Err(MatrixError::EmptyVector));
    assert_eq!(validate_dot_product(0, 2), Err(MatrixError::EmptyVector));
    assert_eq!(validate_dot_product(3, 2), Err(MatrixError::DimensionMismatch));
    assert_eq!(validate_dot_product(2, 3), Err(MatrixError::DimensionMismatch));
    assert_eq!(validate_dot_product(1, 1), Ok(()));
    assert_eq!(validate_dot_product(5, 5), Ok(()));
}

#[test]
fn matrix_product_shapes() {
    assert_eq!(validate_product(&[], &[]), Err(MatrixError::EmptyVector));
    assert_eq!(validate_product(&[], &[2, 2]), Err(MatrixError::EmptyVector));
    assert_eq!(validate_product(&[3, 3, 3], &[]), Err(MatrixError::EmptyVector));
    assert_eq!(
        validate_product(&[3, 3, 3], &[2, 2]),
        Err(MatrixError::DimensionMismatch)
    );
    assert_eq!(validate_product(&[3, 3], &[2, 2]), Err(MatrixError::DimensionMismatch));
    assert_eq!(validate_product(&[4, 3], &[2, 2, 2]), Err(MatrixError::InvalidShape));
    assert_eq!(validate_product(&[3, 3], &[2, 1, 2]), Err(MatrixError::InvalidShape));
    assert_eq!(validate_product(&[3, 3], &[2, 2, 2]), Ok(()));
    assert_eq!(validate_product(&[3, 3, 3, 3, 3], &[2, 2, 2]), Ok(()));
}
