use mat2d::bits::bits_to_u8;
use mat2d::{Mat2d, MatrixError};

fn mat(list: Vec<i32>, rows: i64, cols: i64) -> Mat2d<i32> {
    Mat2d::from_vec(&list, rows, cols).unwrap()
}

#[test]
fn filled_reads_back_everywhere() {
    let m = Mat2d::new(7i32, 2, 3).unwrap();
    assert_eq!(m.get_dimensions(), (2, 3));
    for r in 0..2 {
        for c in 0..3 {
            assert_eq!(m.get(r, c), Ok(7));
        }
    }
}

#[test]
fn flat_round_trip() {
    let m = mat(vec![1, 2, 3, 4, 5, 6], 2, 3);
    let (rows, cols) = m.get_dimensions();
    let back = Mat2d::from_vec(&m.get_matrix(), rows as i64, cols as i64).unwrap();
    assert_eq!(back, m);
    assert_eq!(m.get_matrix(), vec![1, 2, 3, 4, 5, 6]);
}

#[test]
fn add_is_commutative() {
    let a = mat(vec![1, -2, 3, 4], 2, 2);
    let b = mat(vec![10, 20, -30, 40], 2, 2);
    let ab = a.add(&b).unwrap();
    let ba = b.add(&a).unwrap();
    assert_eq!(ab, ba);
    assert_eq!(ab.get_matrix(), vec![11, 18, -27, 44]);
}

#[test]
fn multiply_by_identity() {
    let a = mat(vec![1, 2, 3, 4, 5, 6], 2, 3);
    let i3 = mat(vec![1, 0, 0, 0, 1, 0, 0, 0, 1], 3, 3);
    let i2 = mat(vec![1, 0, 0, 1], 2, 2);
    assert_eq!(a.multiply(&i3).unwrap(), a);
    assert_eq!(i2.multiply(&a).unwrap(), a);
}

#[test]
fn multiply_concrete() {
    let a = mat(vec![1, 2, 3, 4, 5, 6], 2, 3);
    let b = mat(vec![7, 8, 9, 10, 11, 12], 3, 2);
    let p = a.multiply(&b).unwrap();
    assert_eq!(p.get_dimensions(), (2, 2));
    assert_eq!(p.get_matrix(), vec![58, 64, 139, 154]);
}

#[test]
fn multiply_shape_mismatch() {
    let a = mat(vec![1, 2, 3, 4, 5, 6], 2, 3);
    assert_eq!(a.multiply(&a), Err(MatrixError::ShapeMismatch));
}

#[test]
fn multiply_truncates_wide_sums() {
    let a = mat(vec![i32::MAX, i32::MAX], 1, 2);
    let b = mat(vec![2, 2], 2, 1);
    // 4 * (2^31 - 1) = 2^33 - 4, whose low 32 bits read as -4.
    assert_eq!(a.multiply(&b).unwrap().get_matrix(), vec![-4]);
}

#[test]
fn add_shape_mismatch() {
    let a = Mat2d::new(1i32, 2, 3).unwrap();
    let b = Mat2d::new(1i32, 3, 2).unwrap();
    assert_eq!(a.add(&b), Err(MatrixError::ShapeMismatch));
    assert_eq!(a.sub(&b), Err(MatrixError::ShapeMismatch));
    assert_eq!(a.divide(&b), Err(MatrixError::ShapeMismatch));
}

#[test]
fn add_wraps_on_overflow() {
    let a = mat(vec![i32::MAX], 1, 1);
    let b = mat(vec![1], 1, 1);
    assert_eq!(a.add(&b).unwrap().get_matrix(), vec![i32::MIN]);
}

#[test]
fn sub_elementwise() {
    let a = mat(vec![5, 5, 5, 5], 2, 2);
    let b = mat(vec![1, 2, 3, 4], 2, 2);
    assert_eq!(a.sub(&b).unwrap().get_matrix(), vec![4, 3, 2, 1]);
    let m = mat(vec![i32::MIN], 1, 1);
    let one = mat(vec![1], 1, 1);
    assert_eq!(m.sub(&one).unwrap().get_matrix(), vec![i32::MAX]);
}

#[test]
fn divide_by_zero() {
    let a = Mat2d::ones(2, 2).unwrap();
    let b = Mat2d::zeroes(2, 2).unwrap();
    assert_eq!(a.divide(&b), Err(MatrixError::DivisionByZero));
    let c = mat(vec![1, 2, 0, 4], 2, 2);
    assert_eq!(a.divide(&c), Err(MatrixError::DivisionByZero));
}

#[test]
fn divide_rounds_toward_zero() {
    let a = mat(vec![7, -7, 7, -7, i32::MIN, 9], 2, 3);
    let b = mat(vec![2, 2, -2, -2, -1, 3], 2, 3);
    assert_eq!(a.divide(&b).unwrap().get_matrix(), vec![3, -3, -3, 3, i32::MIN, 3]);
}

#[test]
fn determinant_two_by_two() {
    let a = Mat2d::from_array(&vec![vec![1, 2], vec![3, 4]]).unwrap();
    assert_eq!(a.get_determinant(), Ok(-2));
}

#[test]
fn determinant_identity_three() {
    let i3 = mat(vec![1, 0, 0, 0, 1, 0, 0, 0, 1], 3, 3);
    assert_eq!(i3.get_determinant(), Ok(1));
}

#[test]
fn determinant_three_by_three() {
    let a = mat(vec![6, 1, 1, 4, -2, 5, 2, 8, 7], 3, 3);
    assert_eq!(a.get_determinant(), Ok(-306));
}

#[test]
fn determinant_small_sizes() {
    assert_eq!(mat(vec![-9], 1, 1).get_determinant(), Ok(-9));
    assert_eq!(mat(vec![], 0, 0).get_determinant(), Ok(1));
}

#[test]
fn determinant_not_square() {
    assert_eq!(Mat2d::zeroes(2, 3).unwrap().get_determinant(), Err(MatrixError::NotSquare));
}

#[test]
fn determinant_four_by_four() {
    let a = mat(vec![1, 0, 2, -1, 3, 0, 0, 5, 2, 1, 4, -3, 1, 0, 5, 0], 4, 4);
    assert_eq!(a.get_determinant(), Ok(30));
    let d = mat(vec![2, 0, 0, 0, 0, 3, 0, 0, 0, 0, 4, 0, 0, 0, 0, 5], 4, 4);
    assert_eq!(d.get_determinant(), Ok(120));
    assert_eq!(Mat2d::zeroes(4, 4).unwrap().get_determinant(), Ok(0));
}

#[test]
fn determinant_truncates() {
    // The exact determinant is 2^32, whose low 32 bits are zero.
    let a = mat(vec![65536, 0, 0, 0, 65536, 0, 0, 0, 1], 3, 3);
    assert_eq!(a.get_determinant(), Ok(0));
    // 2^31 reads back as i32::MIN.
    let b = mat(vec![65536, 0, 0, 32768], 2, 2);
    assert_eq!(b.get_determinant(), Ok(i32::MIN));
}

#[test]
fn get_out_of_bounds() {
    let m = Mat2d::new(0i32, 2, 2).unwrap();
    assert_eq!(m.get(2, 0), Err(MatrixError::IndexOutOfBounds));
    assert_eq!(m.get(0, 2), Err(MatrixError::IndexOutOfBounds));
    assert_eq!(m.get(1, 1), Ok(0));
}

#[test]
fn get_row_major() {
    let m = mat(vec![1, 2, 3, 4, 5, 6], 2, 3);
    assert_eq!(m.get(0, 2), Ok(3));
    assert_eq!(m.get(1, 0), Ok(4));
    assert_eq!(m.get(1, 2), Ok(6));
}

#[test]
fn negative_dimensions() {
    assert_eq!(Mat2d::new(0i32, -1, 2).unwrap_err(), MatrixError::InvalidDimensions);
    assert_eq!(Mat2d::new(0i32, 2, -1).unwrap_err(), MatrixError::InvalidDimensions);
    assert_eq!(Mat2d::<i32>::from_vec(&vec![], -1, 0).unwrap_err(), MatrixError::InvalidDimensions);
}

#[test]
fn too_many_cells() {
    assert_eq!(Mat2d::new(0u8, i64::MAX, i64::MAX).unwrap_err(), MatrixError::InvalidDimensions);
}

#[test]
fn flat_shape_mismatch() {
    assert_eq!(Mat2d::from_vec(&vec![1, 2, 3], 2, 2).unwrap_err(), MatrixError::InvalidShape);
    assert_eq!(Mat2d::from_vec(&vec![1, 2, 3], i64::MAX, 2).unwrap_err(), MatrixError::InvalidShape);
}

#[test]
fn nested_rows() {
    let m = Mat2d::from_array(&vec![vec![1, 2, 3], vec![4, 5, 6]]).unwrap();
    assert_eq!(m.get_dimensions(), (2, 3));
    assert_eq!(m.get_matrix(), vec![1, 2, 3, 4, 5, 6]);
    let empty = Mat2d::<i32>::from_array(&vec![]).unwrap();
    assert_eq!(empty.get_dimensions(), (0, 0));
}

#[test]
fn nested_ragged() {
    let r = Mat2d::from_array(&vec![vec![1, 2], vec![3]]);
    assert_eq!(r.unwrap_err(), MatrixError::RaggedRows);
}

#[test]
fn empty_matrices() {
    let m = Mat2d::new(5i32, 0, 3).unwrap();
    assert_eq!(m.get_dimensions(), (0, 3));
    assert!(m.get_matrix().is_empty());
    assert_eq!(m.get(0, 0), Err(MatrixError::IndexOutOfBounds));
}

#[test]
fn zeroes_and_ones() {
    assert_eq!(Mat2d::zeroes(2, 2).unwrap().get_matrix(), vec![0, 0, 0, 0]);
    assert_eq!(Mat2d::ones(1, 3).unwrap().get_matrix(), vec![1, 1, 1]);
}

#[test]
fn max_and_min() {
    let m = mat(vec![3, -8, 12, 0], 2, 2);
    assert_eq!(m.max(), 12);
    assert_eq!(m.min(), -8);
}

#[test]
fn default_is_three_by_three_zeros() {
    let d: Mat2d<i32> = Default::default();
    assert_eq!(d.get_dimensions(), (3, 3));
    assert_eq!(d.get_matrix(), vec![0; 9]);
}

#[test]
fn equality_compares_shape() {
    let a = mat(vec![1, 2, 3, 4, 5, 6], 2, 3);
    let b = mat(vec![1, 2, 3, 4, 5, 6], 3, 2);
    let c = mat(vec![1, 2, 3, 4, 5, 7], 2, 3);
    assert!(a != b);
    assert!(a != c);
    assert!(a == a.clone());
    assert_eq!(a.duplicate(), a);
}

#[test]
fn bits_fold() {
    assert_eq!(bits_to_u8(&vec![1, 0, 1]), 5);
    assert_eq!(bits_to_u8(&vec![]), 0);
    assert_eq!(bits_to_u8(&vec![1, 1, 1, 1, 1, 1, 1, 1, 1]), 255);
    assert_eq!(bits_to_u8(&vec![255, 1]), 255);
}
