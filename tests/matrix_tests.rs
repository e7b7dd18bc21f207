use neural_matrix::{Matrix, MatrixError};
use rand::thread_rng;
use rand_distr::{Distribution, Normal};

fn m(rows: usize, cols: usize, data: Vec<f64>) -> Matrix<f64> {
    Matrix::new(rows, cols, Some(data)).unwrap()
}

#[test]
fn should_create_matrix() {
    let matrix = Matrix::new(2, 2, Some(vec![1.0, 2.0, 3.0, 4.0])).unwrap();
    assert_eq!(matrix.rows(), 2);
    assert_eq!(matrix.cols(), 2);
    assert_eq!(*matrix.data(), vec![1.0, 2.0, 3.0, 4.0]);
}

#[test]
fn should_create_empty_matrix() {
    let matrix = Matrix::<f64>::new(2, 2, None).unwrap();
    assert_eq!(matrix.rows(), 2);
    assert_eq!(matrix.cols(), 2);
    assert_eq!(*matrix.data(), vec![0.0, 0.0, 0.0, 0.0]);
}

#[test]
fn should_not_create_matrix() {
    assert_eq!(Matrix::<f64>::new(0, 0, None), Err(MatrixError::InvalidShape));
}

#[test]
fn should_get_matrix_element() {
    let matrix = m(2, 2, vec![1.0, 2.0, 3.0, 4.0]);
    assert_eq!(matrix.get(0, 0), Ok(1.0));
    assert_eq!(matrix.get(0, 1), Ok(2.0));
    assert_eq!(matrix.get(1, 0), Ok(3.0));
    assert_eq!(matrix.get(1, 1), Ok(4.0));
}

#[test]
fn should_not_get_matrix_element() {
    let matrix = m(2, 2, vec![1.0, 2.0, 3.0, 4.0]);
    assert_eq!(matrix.get(2, 2), Err(MatrixError::IndexOutOfBounds));
}

#[test]
fn should_set_matrix_element() {
    let mut matrix = m(2, 2, vec![1.0, 2.0, 3.0, 4.0]);
    assert_eq!(matrix.set(0, 0, 5.0), Ok(()));
    assert_eq!(matrix.get(0, 0), Ok(5.0));
}

#[test]
fn should_not_set_matrix_element() {
    let mut matrix = m(2, 2, vec![1.0, 2.0, 3.0, 4.0]);
    assert_eq!(matrix.set(2, 2, 5.0), Err(MatrixError::IndexOutOfBounds));
    assert_eq!(*matrix.data(), vec![1.0, 2.0, 3.0, 4.0]);
}

#[test]
fn should_get_matrix_rows() {
    let matrix = Matrix::<f64>::new(2, 2, None).unwrap();
    assert_eq!(matrix.rows(), 2);
}

#[test]
fn should_get_matrix_cols() {
    let matrix = Matrix::<f64>::new(2, 2, None).unwrap();
    assert_eq!(matrix.cols(), 2);
}

#[test]
fn should_get_matrix_data() {
    let matrix = m(2, 2, vec![1.0, 2.0, 3.0, 4.0]);
    assert_eq!(*matrix.data(), vec![1.0, 2.0, 3.0, 4.0]);
}

#[test]
fn should_get_matrix_size() {
    let matrix = Matrix::<f64>::new(2, 2, None).unwrap();
    assert_eq!(matrix.size(), 4);
}

#[test]
fn should_get_matrix_row() {
    let matrix = m(2, 2, vec![1.0, 2.0, 3.0, 4.0]);
    assert_eq!(matrix.row(0), Ok(vec![1.0, 2.0]));
    assert_eq!(matrix.row(1), Ok(vec![3.0, 4.0]));
}

#[test]
fn should_not_get_matrix_row() {
    let matrix = Matrix::<f64>::new(2, 2, None).unwrap();
    assert_eq!(matrix.row(2), Err(MatrixError::IndexOutOfBounds));
}

#[test]
fn should_get_matrix_col() {
    let matrix = m(2, 2, vec![1.0, 2.0, 3.0, 4.0]);
    assert_eq!(matrix.col(0), Ok(vec![1.0, 3.0]));
    assert_eq!(matrix.col(1), Ok(vec![2.0, 4.0]));
}

#[test]
fn should_not_get_matrix_col() {
    let matrix = Matrix::<f64>::new(2, 2, None).unwrap();
    assert_eq!(matrix.col(2), Err(MatrixError::IndexOutOfBounds));
}

#[test]
fn should_add_matrix() {
    let matrix1 = m(2, 2, vec![1.0, 2.0, 3.0, 4.0]);
    let matrix2 = m(2, 2, vec![1.0, 2.0, 3.0, 4.0]);
    let result = matrix1.add(&matrix2).unwrap();
    assert_eq!(*result.data(), vec![2.0, 4.0, 6.0, 8.0]);
}

#[test]
fn should_not_add_matrix() {
    let matrix1 = m(2, 2, vec![1.0, 2.0, 3.0, 4.0]);
    let matrix2 = m(2, 3, vec![1.0, 2.0, 3.0, 4.0, 5.0, 6.0]);
    assert_eq!(matrix1.add(&matrix2), Err(MatrixError::ShapeMismatch));
}

#[test]
fn should_add_f64() {
    let matrix = m(2, 2, vec![1.0, 2.0, 3.0, 4.0]);
    let result = matrix.add_scalar(1.0);
    assert_eq!(*result.data(), vec![2.0, 3.0, 4.0, 5.0]);
}

#[test]
fn should_add_f64_to_matrix() {
    let matrix = m(2, 2, vec![1.0, 2.0, 3.0, 4.0]);
    let result = Matrix::scalar_add(1.0, &matrix);
    assert_eq!(*result.data(), vec![2.0, 3.0, 4.0, 5.0]);
}

#[test]
fn should_subtract_matrix() {
    let matrix1 = m(2, 2, vec![1.0, 2.0, 3.0, 4.0]);
    let matrix2 = m(2, 2, vec![1.0, 2.0, 3.0, 4.0]);
    let result = matrix1.sub(&matrix2).unwrap();
    assert_eq!(*result.data(), vec![0.0, 0.0, 0.0, 0.0]);
}

#[test]
fn should_not_subtract_matrix() {
    let matrix1 = m(2, 2, vec![1.0, 2.0, 3.0, 4.0]);
    let matrix2 = m(2, 3, vec![1.0, 2.0, 3.0, 4.0, 5.0, 6.0]);
    assert_eq!(matrix1.sub(&matrix2), Err(MatrixError::ShapeMismatch));
}

#[test]
fn should_subtract_f64() {
    let matrix = m(2, 2, vec![1.0, 2.0, 3.0, 4.0]);
    let result = matrix.sub_scalar(1.0);
    assert_eq!(*result.data(), vec![0.0, 1.0, 2.0, 3.0]);
}

#[test]
fn should_subtract_f64_from_matrix() {
    let matrix = m(2, 2, vec![1.0, 2.0, 3.0, 4.0]);
    let result = Matrix::scalar_sub(1.0, &matrix);
    assert_eq!(*result.data(), vec![0.0, -1.0, -2.0, -3.0]);
}

#[test]
fn should_multiply_matrix() {
    let matrix1 = m(2, 2, vec![1.0, 2.0, 3.0, 4.0]);
    let matrix2 = m(2, 2, vec![1.0, 2.0, 3.0, 4.0]);
    let result = matrix1.mul(&matrix2).unwrap();
    assert_eq!(*result.data(), vec![1.0, 4.0, 9.0, 16.0]);
}

#[test]
fn should_not_multiply_matrix() {
    // four values cannot fill a 2 x 3 matrix, nor six a 3 x 4 one
    assert_eq!(
        Matrix::new(2, 3, Some(vec![1.0, 2.0, 3.0, 4.0])),
        Err(MatrixError::InvalidShape)
    );
    assert_eq!(
        Matrix::new(3, 4, Some(vec![1.0, 2.0, 3.0, 4.0, 5.0, 6.0])),
        Err(MatrixError::InvalidShape)
    );
    let matrix1 = Matrix::<f64>::new(2, 3, None).unwrap();
    let matrix2 = Matrix::<f64>::new(3, 4, None).unwrap();
    assert_eq!(matrix1.mul(&matrix2), Err(MatrixError::ShapeMismatch));
}

#[test]
fn should_multiply_f64() {
    let matrix = m(2, 2, vec![1.0, 2.0, 3.0, 4.0]);
    let result = matrix.mul_scalar(2.0);
    assert_eq!(*result.data(), vec![2.0, 4.0, 6.0, 8.0]);
}

#[test]
fn should_multiply_f64_to_matrix() {
    let matrix = m(2, 2, vec![1.0, 2.0, 3.0, 4.0]);
    let result = Matrix::scalar_mul(2.0, &matrix);
    assert_eq!(*result.data(), vec![2.0, 4.0, 6.0, 8.0]);
}

fn he_samples(count: usize, n_inputs: usize) -> Vec<f64> {
    let normal = Normal::new(0.0, (2.0_f64 / n_inputs as f64).sqrt()).unwrap();
    let mut rng = thread_rng();
    (0..count).map(|_| normal.sample(&mut rng)).collect()
}

#[test]
fn testing_initialize() {
    let mut matrix = Matrix::<f64>::new(1, 10, None).unwrap();
    let samples = he_samples(matrix.size(), 10);
    assert_eq!(matrix.initialize(10, samples.clone()), Ok(()));
    assert_eq!(matrix.data().len(), 10);
    assert_ne!(*matrix.data(), vec![0.0; 10]);
    assert_eq!(*matrix.data(), samples);
    assert_eq!((matrix.rows(), matrix.cols()), (1, 10));
}

#[test]
fn should_transpose_matrix() {
    let matrix = m(2, 3, vec![1.0, 2.0, 3.0, 4.0, 5.0, 6.0]);
    let transposed_matrix = matrix.transpose();
    assert_eq!(transposed_matrix.rows(), 3);
    assert_eq!(transposed_matrix.cols(), 2);
    assert_eq!(*transposed_matrix.data(), vec![1.0, 4.0, 2.0, 5.0, 3.0, 6.0]);
}

#[test]
fn should_print_matrix() {
    let matrix = m(2, 2, vec![1.0, 2.0, 3.0, 4.0]);
    assert_eq!(format!("{:?}", matrix), "Matrix { rows: 2, cols: 2, data: [1.0, 2.0, 3.0, 4.0] }");
}

#[test]
fn should_equate_matrix() {
    let matrix1 = m(2, 2, vec![1.0, 2.0, 3.0, 4.0]);
    let matrix2 = m(2, 2, vec![1.0, 2.0, 3.0, 4.0]);
    assert_eq!(matrix1, matrix2);
}

#[test]
fn should_not_equate_matrix() {
    let matrix1 = m(2, 2, vec![1.0, 2.0, 3.0, 4.0]);
    let matrix2 = m(2, 2, vec![1.0, 2.0, 3.0, 5.0]);
    assert_ne!(matrix1, matrix2);
}

#[test]
fn should_clone_matrix() {
    let matrix = m(2, 2, vec![1.0, 2.0, 3.0, 4.0]);
    let cloned_matrix = matrix.clone();
    assert_eq!(cloned_matrix, matrix);
}
