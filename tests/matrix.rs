use ray_tracer::matrix::{Axis, Matrix};

fn identity() -> Matrix<f64> {
    Matrix::new(vec![
        vec![1.0, 0.0, 0.0, 0.0],
        vec![0.0, 1.0, 0.0, 0.0],
        vec![0.0, 0.0, 1.0, 0.0],
        vec![0.0, 0.0, 0.0, 1.0],
    ])
}

#[test]
fn matrix_elements_are_correct() {
    let matrix: Matrix<f64> = Matrix::new(vec![
        vec![1.0, 2.0, 3.0, 4.0],
        vec![5.5, 6.5, 7.5, 8.5],
        vec![9.0, 10.0, 11.0, 12.0],
        vec![13.5, 14.5, 15.5, 16.5],
    ]);
    assert_eq!(matrix.get(0, 0), 1.0);
    assert_eq!(matrix.get(0, 3), 4.0);
    assert_eq!(matrix.get(1, 0), 5.5);
    assert_eq!(matrix.get(1, 2), 7.5);
    assert_eq!(matrix.get(2, 2), 11.0);
    assert_eq!(matrix.get(3, 0), 13.5);
    assert_eq!(matrix.get(3, 2), 15.5);
}

#[test]
fn can_represent_two_by_two_matrix() {
    let matrix: Matrix<f64> = Matrix::new(vec![vec![-3.0, 5.0], vec![1.0, -2.0]]);
    assert_eq!(matrix.get(0, 0), -3.0);
    assert_eq!(matrix.get(0, 1), 5.0);
    assert_eq!(matrix.get(1, 0), 1.0);
    assert_eq!(matrix.get(1, 1), -2.0);
}

#[test]
fn can_represent_three_by_three_matrix() {
    let matrix: Matrix<f64> = Matrix::new(vec![
        vec![-3.0, 5.0, 0.0],
        vec![1.0, -2.0, -7.0],
        vec![0.0, 1.0, 1.0],
    ]);
    assert_eq!(matrix.get(0, 0), -3.0);
    assert_eq!(matrix.get(0, 1), 5.0);
    assert_eq!(matrix.get(0, 2), 0.0);
    assert_eq!(matrix.get(1, 0), 1.0);
    assert_eq!(matrix.get(1, 1), -2.0);
    assert_eq!(matrix.get(1, 2), -7.0);
    assert_eq!(matrix.get(2, 0), 0.0);
    assert_eq!(matrix.get(2, 1), 1.0);
    assert_eq!(matrix.get(2, 2), 1.0);
    assert_eq!(matrix.len(), 3);
}

#[test]
fn matrix_are_equal() {
    let m1: Matrix<f64> = Matrix::new(vec![
        vec![-3.0, 5.0, 0.0],
        vec![1.0, -2.0, -7.0],
        vec![0.0, 1.0, 1.0],
    ]);
    let m2: Matrix<f64> = Matrix::new(vec![
        vec![-3.0, 5.0, 0.0],
        vec![1.0, -2.0, -7.0],
        vec![0.0, 1.0, 1.0],
    ]);
    let sut = m1 == m2;
    assert!(sut);
}

#[test]
fn matrix_are_ne() {
    let m1: Matrix<f64> = Matrix::new(vec![
        vec![-3.0, 5.0, 0.0],
        vec![1.0, -2.0, -7.0],
        vec![0.0, 1.0, 1.0],
    ]);
    let m2: Matrix<f64> = Matrix::new(vec![
        vec![-3.0, 5.0, 0.0],
        vec![1.0, -2.0, -7.0],
        vec![0.0, 1.0, 2.0],
    ]);
    assert!(m1 != m2);
}

#[test]
fn matrix_transposes_correctly() {
    let matrix: Matrix<f64> = Matrix::new(vec![
        vec![0.0, 9.0, 3.0, 0.0],
        vec![9.0, 8.0, 0.0, 8.0],
        vec![1.0, 8.0, 5.0, 3.0],
        vec![0.0, 0.0, 5.0, 8.0],
    ]);

    let sut = matrix.transpose();
    let expected = Matrix::new(vec![
        vec![0.0, 9.0, 1.0, 0.0],
        vec![9.0, 8.0, 8.0, 0.0],
        vec![3.0, 0.0, 5.0, 5.0],
        vec![0.0, 8.0, 3.0, 8.0],
    ]);

    assert_eq!(sut, expected);
}

#[test]
fn transpose_of_identity_is_identity() {
    let ident = identity();
    let sut = ident.transpose();
    assert_eq!(sut, ident)
}

#[test]
fn sub_matrix_of_three_by_three_is_two_by_two() {
    let matrix = Matrix::new(vec![
        vec![1.0, 5.0, 9.0],
        vec![-3.0, 2.0, 7.0],
        vec![0.0, 6.0, -3.0],
    ]);
    let sut = matrix.submatrix(0, 2);
    let expected = Matrix::new(vec![vec![-3.0, 2.0], vec![0.0, 6.0]]);
    assert_eq!(sut, expected);
}

#[test]
fn sub_matrix_of_four_by_four_is_two_by_two() {
    let matrix = Matrix::new(vec![
        vec![-6.0, 1.0, 1.0, 6.0],
        vec![-8.0, 5.0, 8.0, 6.0],
        vec![-1.0, 0.0, 8.0, 2.0],
        vec![-7.0, 1.0, -1.0, 1.0],
    ]);
    let sut = matrix.submatrix(2, 1);
    let expected = Matrix::new(vec![
        vec![-6.0, 1.0, 6.0],
        vec![-8.0, 8.0, 6.0],
        vec![-7.0, -1.0, 1.0],
    ]);
    assert_eq!(sut, expected);
}

#[test]
fn submatrix_of_two_by_two_is_a_single_entry() {
    let matrix = Matrix::new(vec![vec![1, 2], vec![3, 4]]);
    assert_eq!(matrix.submatrix(0, 0), Matrix::new(vec![vec![4]]));
    assert_eq!(matrix.submatrix(1, 0), Matrix::new(vec![vec![2]]));
    assert_eq!(matrix.submatrix(0, 1), Matrix::new(vec![vec![3]]));
}

#[test]
fn transposing_twice_gives_the_matrix_back() {
    let matrix = Matrix::new(vec![vec![1, 2, 3], vec![4, 5, 6], vec![7, 8, 9]]);
    assert_eq!(matrix.transpose().get(0, 2), 7);
    assert_eq!(matrix.transpose().transpose(), matrix);
}

#[test]
fn axes_are_distinct() {
    assert_ne!(Axis::X, Axis::Y);
    assert_ne!(Axis::Y, Axis::Z);
    assert_eq!(Axis::Z, Axis::Z);
}
