use linal::field::{residue, to_signed, MODULUS};
use linal::matrix::{Matrix, MatrixError};
use linal::vector::Vector;

#[test]
fn residues_of_signed_values() {
    assert_eq!(residue(5), 5);
    assert_eq!(residue(-6), MODULUS - 6);
    assert_eq!(residue(MODULUS as i64 + 3), 3);
    assert_eq!(to_signed(MODULUS - 6), -6);
    assert_eq!(to_signed(6), 6);
}

#[test]
fn vector_arithmetic() {
    let a = Vector::from_values(vec![1, 2, 3]);
    let b = Vector::from_values(vec![4, 5, 6]);
    assert_eq!(a.add(&b), Ok(Vector::from_values(vec![5, 7, 9])));
    assert_eq!(a.sub(&b), Ok(Vector::from_values(vec![-3, -3, -3])));
    assert_eq!(a.scale(3), Vector::from_values(vec![3, 6, 9]));
    assert_eq!(a.dot(&b), Ok(32));
    let c = Vector::from_values(vec![1, 2]);
    assert_eq!(a.add(&c), Err(MatrixError::DimensionMismatch));
    assert_eq!(a.dot(&c), Err(MatrixError::DimensionMismatch));
}

#[test]
fn vector_in_place_arithmetic() {
    let mut a = Vector::from_values(vec![1, 2]);
    let b = Vector::from_values(vec![10, 20]);
    assert_eq!(a.add_assign(&b), Ok(()));
    assert_eq!(a, Vector::from_values(vec![11, 22]));
    assert_eq!(a.sub_assign(&b), Ok(()));
    assert_eq!(a, Vector::from_values(vec![1, 2]));
    a.scale_assign(-1);
    assert_eq!(a.clone().vec(), vec![MODULUS - 1, MODULUS - 2]);
    assert_eq!(a.len(), 2);
    assert_eq!(a.get(1), Ok(MODULUS - 2));
    assert_eq!(a.get(2), Err(MatrixError::IndexOutOfRange));
}

#[test]
fn cross_product() {
    let a = Vector::from_values(vec![1, 0, 0]);
    let b = Vector::from_values(vec![0, 1, 0]);
    assert_eq!(a.crossp(&b), Ok(Vector::from_values(vec![0, 0, 1])));
    let c = Vector::from_values(vec![2, 3, 4]);
    let d = Vector::from_values(vec![5, 6, 7]);
    assert_eq!(c.crossp(&d), Ok(Vector::from_values(vec![-3, 6, -3])));
    let e = Vector::from_values(vec![1, 2]);
    assert_eq!(e.crossp(&c), Err(MatrixError::DimensionMismatch));
}

#[test]
fn column_matrix_round_trip() {
    let v = Vector::from_values(vec![3, -1, 4]);
    let m = Matrix::from_vector(&v);
    assert_eq!(m.rows(), 3);
    assert_eq!(m.cols(), 1);
    assert_eq!(m.to_vector(), Ok(v));
    let wide = Matrix::zeros(1, 2);
    assert_eq!(wide.to_vector(), Err(MatrixError::DimensionMismatch));
}

#[test]
fn iterators_walk_in_order() {
    let v = Vector::from_values(vec![3, -1, 4]);
    let seen: Vec<u64> = v.iter().copied().collect();
    assert_eq!(seen, vec![3, MODULUS - 1, 4]);
    let m = Matrix::from_rows(vec![vec![1, 2], vec![3, 4]]).unwrap();
    let rows: Vec<Vec<u64>> = m.iter().cloned().collect();
    assert_eq!(rows, vec![vec![1, 2], vec![3, 4]]);
}
