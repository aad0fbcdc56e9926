use linal::matrix::{Matrix, MatrixError};

fn mat(rows: Vec<Vec<i64>>) -> Matrix {
    Matrix::from_rows(rows).unwrap()
}

#[test]
fn matrix_addition() {
    let m1 = mat(vec![vec![1, 2, 3], vec![4, 5, 6], vec![7, 8, 9]]);
    let m2 = mat(vec![vec![9, 8, 7], vec![6, 5, 4], vec![3, 2, 1]]);
    let m3 = mat(vec![vec![10, 10, 10], vec![10, 10, 10], vec![10, 10, 10]]);

    assert_eq!(m1.add(&m2), Ok(m3));
}

#[test]
fn matrix_subtraction() {
    let m1 = mat(vec![vec![1, 2, 3], vec![4, 5, 6], vec![7, 8, 9]]);
    let m2 = mat(vec![vec![0, 1, 2], vec![3, 4, 5], vec![6, 7, 8]]);
    let m3 = mat(vec![vec![1, 1, 1], vec![1, 1, 1], vec![1, 1, 1]]);

    assert_eq!(m1.sub(&m2), Ok(m3));
}

#[test]
fn matrix_scalar_multiplication() {
    let m1 = mat(vec![vec![1, 2, 3], vec![4, 5, 6], vec![7, 8, 9]]);
    let m2 = mat(vec![vec![2, 4, 6], vec![8, 10, 12], vec![14, 16, 18]]);

    assert_eq!(m1.scale(2), m2);
}

#[test]
fn matrix_matrix_multiplication() {
    let m1 = mat(vec![vec![1, 2, 3], vec![4, 5, 6]]);
    let m2 = mat(vec![vec![1, 2], vec![4, 5], vec![7, 8]]);
    let m3 = mat(vec![vec![30, 36], vec![66, 81]]);

    assert_eq!(m1.mul(&m2), Ok(m3))
}

#[test]
fn matrix_determinant() {
    let m1 = mat(vec![vec![8, 3, 2], vec![1, 7, 9], vec![5, 3, 3]]);

    assert_eq!(m1.det(), Ok(14));
}

#[test]
fn matrix_inverse() {
    let m1 = mat(vec![vec![1, 2, -2], vec![1, 4, 1], vec![0, 1, 2]]);
    let m2 = mat(vec![vec![7, -6, 10], vec![-2, 2, -3], vec![1, -1, 2]]);

    assert!(m1.inverse().unwrap().is_some());
    assert_eq!(m1.inverse().unwrap().unwrap(), m2)
}

#[test]
fn matrix_total() {
    let m1 = mat(vec![vec![1, 2, 3], vec![4, 5, 6], vec![7, 8, 9]]);
    let m2 = mat(vec![vec![3, 2, 1], vec![6, 5, 4], vec![9, 8, 7]]);
    let m3 = mat(vec![vec![1, 2, 3, 3, 2, 1], vec![4, 5, 6, 6, 5, 4], vec![7, 8, 9, 9, 8, 7]]);

    assert_eq!(Matrix::total(&m1, &m2), Ok(m3))
}

#[test]
fn add_then_sub_gives_back_original() {
    let a = mat(vec![vec![5, -3], vec![2147483646, 0]]);
    let b = mat(vec![vec![2147483000, 7], vec![9, -1]]);
    let sum = a.add(&b).unwrap();
    assert_eq!(sum.sub(&b), Ok(a));
}

#[test]
fn product_is_associative() {
    let a = mat(vec![vec![1, 2], vec![3, 4], vec![-5, 6]]);
    let b = mat(vec![vec![7, 0, -1], vec![2, 9, 4]]);
    let c = mat(vec![vec![1], vec![-2], vec![3]]);
    let left = a.mul(&b.mul(&c).unwrap()).unwrap();
    let right = a.mul(&b).unwrap().mul(&c).unwrap();
    assert_eq!(left, right);
    assert_eq!(left.rows(), 3);
    assert_eq!(left.cols(), 1);
}

#[test]
fn identity_is_neutral() {
    let a = mat(vec![vec![4, -1, 2], vec![0, 3, 8], vec![6, 5, -7]]);
    let i = Matrix::ident(3);
    assert_eq!(a.mul(&i), Ok(a.clone()));
    assert_eq!(i.mul(&a), Ok(a));
}

#[test]
fn identity_layout() {
    let i = Matrix::ident(2);
    assert_eq!(i, mat(vec![vec![1, 0], vec![0, 1]]));
}

#[test]
fn inverse_times_matrix_is_identity() {
    let a = mat(vec![vec![2, 1], vec![7, 4]]);
    let inv = a.inverse().unwrap().unwrap();
    assert_eq!(inv, mat(vec![vec![4, -1], vec![-7, 2]]));
    assert_eq!(a.mul(&inv), Ok(Matrix::ident(2)));
}

#[test]
fn inverse_of_fractional_matrix() {
    let a = mat(vec![vec![2, 0], vec![0, 4]]);
    let inv = a.inverse().unwrap().unwrap();
    assert_eq!(a.mul(&inv), Ok(Matrix::ident(2)));
    assert_eq!(inv.mul(&a), Ok(Matrix::ident(2)));
}

#[test]
fn inverse_of_singular_is_none() {
    let a = mat(vec![vec![1, 2], vec![2, 4]]);
    assert_eq!(a.inverse(), Ok(None));
}

#[test]
fn transpose_twice_gives_back_original() {
    let a = mat(vec![vec![1, 2, 3], vec![4, 5, 6]]);
    let t = a.transpose();
    assert_eq!(t, mat(vec![vec![1, 4], vec![2, 5], vec![3, 6]]));
    assert_eq!(t.transpose(), a);
}

#[test]
fn non_square_determinant_and_inverse_are_refused() {
    let a = mat(vec![vec![1, 2, 3], vec![4, 5, 6]]);
    assert_eq!(a.det(), Err(MatrixError::DimensionMismatch));
    assert_eq!(a.inverse(), Err(MatrixError::DimensionMismatch));
}

#[test]
fn small_determinants() {
    assert_eq!(mat(vec![vec![9]]).det(), Ok(9));
    assert_eq!(mat(vec![vec![3, 8], vec![4, 6]]).det(), Ok(linal::field::MODULUS - 14));
    assert_eq!(linal::field::to_signed(mat(vec![vec![3, 8], vec![4, 6]]).det().unwrap()), -14);
    assert_eq!(Matrix::zeros(0, 0).det(), Ok(1));
}

#[test]
fn four_by_four_determinant() {
    let a = mat(vec![vec![1, 0, 2, -1], vec![3, 0, 0, 5], vec![2, 1, 4, -3], vec![1, 0, 5, 0]]);
    assert_eq!(a.det(), Ok(30));
}

#[test]
fn shape_mismatches_are_reported() {
    let a = mat(vec![vec![1, 2], vec![3, 4]]);
    let b = mat(vec![vec![1, 2, 3]]);
    assert_eq!(a.add(&b), Err(MatrixError::DimensionMismatch));
    assert_eq!(a.sub(&b), Err(MatrixError::DimensionMismatch));
    assert_eq!(a.mul(&b), Err(MatrixError::DimensionMismatch));
    assert_eq!(Matrix::total(&a, &b), Err(MatrixError::DimensionMismatch));
    assert_eq!(Matrix::from_rows(vec![vec![1, 2], vec![3]]), Err(MatrixError::DimensionMismatch));
}

#[test]
fn in_place_arithmetic() {
    let mut a = mat(vec![vec![1, 2], vec![3, 4]]);
    let b = mat(vec![vec![5, 6], vec![7, 8]]);
    assert_eq!(a.add_assign(&b), Ok(()));
    assert_eq!(a, mat(vec![vec![6, 8], vec![10, 12]]));
    assert_eq!(a.sub_assign(&b), Ok(()));
    assert_eq!(a, mat(vec![vec![1, 2], vec![3, 4]]));
    assert_eq!(a.mul_assign(&b), Ok(()));
    assert_eq!(a, mat(vec![vec![5, 12], vec![21, 32]]));
    let c = mat(vec![vec![1, 2, 3]]);
    assert_eq!(a.add_assign(&c), Err(MatrixError::DimensionMismatch));
    assert_eq!(a, mat(vec![vec![5, 12], vec![21, 32]]));
}

#[test]
fn sub_matrix_removes_row_and_column() {
    let a = mat(vec![vec![1, 2, 3], vec![4, 5, 6], vec![7, 8, 9]]);
    assert_eq!(a.sub_matrix(1, 0), Ok(mat(vec![vec![2, 3], vec![8, 9]])));
    assert_eq!(a.sub_matrix(3, 0), Err(MatrixError::IndexOutOfRange));
    assert_eq!(a.sub_matrix(0, 3), Err(MatrixError::IndexOutOfRange));
}

#[test]
fn element_access() {
    let mut a = mat(vec![vec![1, -2], vec![3, 4]]);
    assert_eq!(a.get(0, 1), Ok(linal::field::MODULUS - 2));
    assert_eq!(a.get(2, 0), Err(MatrixError::IndexOutOfRange));
    assert_eq!(a.set(1, 1, 40), Ok(()));
    assert_eq!(a.get(1, 1), Ok(40));
    assert_eq!(a.set(1, 2, 40), Err(MatrixError::IndexOutOfRange));
}

#[test]
fn rref_of_rank_deficient_matrix() {
    let a = mat(vec![vec![0, 2, 4], vec![0, 1, 2], vec![1, 1, 1]]);
    let r = a.rref();
    assert_eq!(r, mat(vec![vec![1, 0, -1], vec![0, 1, 2], vec![0, 0, 0]]));
}

#[test]
fn zeros_shape() {
    let z = Matrix::zeros(2, 3);
    assert_eq!(z.rows(), 2);
    assert_eq!(z.cols(), 3);
    assert_eq!(z, mat(vec![vec![0, 0, 0], vec![0, 0, 0]]));
}
