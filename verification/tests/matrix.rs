use concurrency::{dot_product, multiply, Error, Matrix, Vector};

#[test]
fn test_matrix_display() {
    let m = Matrix::new(vec![1, 2, 3, 4, 5, 6], 2, 3);
    assert_eq!(m.to_string(), "{1 2 3, 4 5 6}");
}

#[test]
fn test_matrix_debug() {
    let m = Matrix::new(vec![1, 2, 3, 4, 5, 6], 2, 3);
    assert_eq!(m.debug_string(), "Matrix(row=2,col=3) {1 2 3, 4 5 6}");
}

#[test]
fn test_matrix_multiply() {
    let a = Matrix::new(vec![1, 2, 3, 4], 2, 2);
    let b = Matrix::new(vec![1, 2, 3, 4], 2, 2);
    let c = multiply(&a, &b).expect("Matrix multiplication failed");
    assert_eq!(c.to_string(), "{7 10, 15 22}");
}

#[test]
fn test_dot_product() {
    let a = Vector::new(vec![1, 2, 3]);
    let b = Vector::new(vec![4, 5, 6]);
    let c = dot_product(a, b).unwrap();
    assert_eq!(c, 32);
}

#[test]
fn test_a_can_not_multiply_b() {
    let a = Matrix::new(vec![1, 2, 3, 4, 5, 6], 2, 3);
    let b = Matrix::new(vec![1, 2, 3, 4], 2, 2);
    let c = multiply(&a, &b);
    assert!(c.is_err());
}

#[test]
#[should_panic]
fn test_a_can_not_multiply_b_panic() {
    let a = Matrix::new(vec![1, 2, 3, 4, 5, 6], 2, 3);
    let b = Matrix::new(vec![1, 2, 3, 4], 2, 2);
    let _ = multiply(&a, &b).expect("Matrix multiplication failed");
}

#[test]
fn shape_mismatch_is_the_error_of_multiply() {
    let a = Matrix::new(vec![1, 2, 3, 4, 5, 6], 2, 3);
    let b = Matrix::new(vec![1, 2, 3, 4], 2, 2);
    assert_eq!(multiply(&a, &b).err(), Some(Error::ShapeMismatch));
    assert_eq!(multiply(&b, &b).err(), None);
}

#[test]
fn accessors_give_back_what_new_took() {
    let m = Matrix::new(vec![1, 2, 3, 4, 5, 6], 2, 3);
    assert_eq!(m.row(), 2);
    assert_eq!(m.col(), 3);
    assert_eq!(m.data(), &[1, 2, 3, 4, 5, 6]);
}

#[test]
fn rows_are_slices_and_columns_are_strides() {
    let m = Matrix::new(vec![1, 2, 3, 4, 5, 6], 2, 3);
    assert_eq!(m.row_vector(0).as_slice(), &[1, 2, 3]);
    assert_eq!(m.row_vector(1).as_slice(), &[4, 5, 6]);
    assert_eq!(m.col_vector(0).as_slice(), &[1, 4]);
    assert_eq!(m.col_vector(1).as_slice(), &[2, 5]);
    assert_eq!(m.col_vector(2).as_slice(), &[3, 6]);
}

fn naive(a: &[i64], b: &[i64], r: usize, k: usize, c: usize) -> Vec<i64> {
    let mut out = vec![0i64; r * c];
    for i in 0..r {
        for j in 0..c {
            let mut sum = 0i64;
            for t in 0..k {
                sum += a[i * k + t] * b[t * c + j];
            }
            out[i * c + j] = sum;
        }
    }
    out
}

#[test]
fn product_equals_three_nested_loops() {
    let (r, k, c) = (3usize, 4usize, 5usize);
    let a: Vec<i64> = (0..(r * k) as i64).map(|x| x * 3 - 7).collect();
    let b: Vec<i64> = (0..(k * c) as i64).map(|x| 11 - x * 2).collect();
    let expected = naive(&a, &b, r, k, c);
    let m = multiply(&Matrix::new(a, r, k), &Matrix::new(b, k, c)).unwrap();
    assert_eq!(m.row(), r);
    assert_eq!(m.col(), c);
    assert_eq!(m.data(), expected.as_slice());
}

#[test]
fn product_of_rectangles() {
    let a = Matrix::new(vec![1, 2, 3, 4, 5, 6], 2, 3);
    let b = Matrix::new(vec![7, 8, 9, 10, 11, 12], 3, 2);
    let m = multiply(&a, &b).unwrap();
    assert_eq!(m.data(), &[58, 64, 139, 154]);
    assert_eq!(m.to_string(), "{58 64, 139 154}");
}

#[test]
fn product_over_no_terms_is_all_zero() {
    let a: Matrix<i32> = Matrix::new(vec![], 2, 0);
    let b: Matrix<i32> = Matrix::new(vec![], 0, 3);
    let m = multiply(&a, &b).unwrap();
    assert_eq!(m.row(), 2);
    assert_eq!(m.col(), 3);
    assert_eq!(m.data(), &[0, 0, 0, 0, 0, 0]);
}

#[test]
fn product_without_rows_is_empty() {
    let a: Matrix<i32> = Matrix::new(vec![], 0, 2);
    let b: Matrix<i32> = Matrix::new(vec![1, 2, 3, 4], 2, 2);
    let m = multiply(&a, &b).unwrap();
    assert_eq!(m.row(), 0);
    assert_eq!(m.col(), 2);
    assert_eq!(m.data().len(), 0);
    assert_eq!(m.to_string(), "{}");
}

#[test]
fn multiplying_again_gives_the_same() {
    let a = Matrix::new(vec![2, -1, 0, 5, 3, 8], 3, 2);
    let b = Matrix::new(vec![4, 1, -6, 9, 0, 2, 7, 3], 2, 4);
    let first = multiply(&a, &b).unwrap();
    for _ in 0..5 {
        let again = multiply(&a, &b).unwrap();
        assert_eq!(again.row(), first.row());
        assert_eq!(again.col(), first.col());
        assert_eq!(again.data(), first.data());
    }
    assert_eq!(a.data(), &[2, -1, 0, 5, 3, 8]);
    assert_eq!(b.data(), &[4, 1, -6, 9, 0, 2, 7, 3]);
}

#[test]
fn product_of_floats() {
    let a = Matrix::new(vec![0.5f64, 2.0, 4.0, 0.25], 2, 2);
    let b = Matrix::new(vec![2.0f64, 0.0, 1.0, 8.0], 2, 2);
    let m = multiply(&a, &b).unwrap();
    assert_eq!(m.data(), &[3.0, 16.0, 8.25, 2.0]);
}

#[test]
fn rendering_edge_cases() {
    let one = Matrix::new(vec![42], 1, 1);
    assert_eq!(one.to_string(), "{42}");
    let column = Matrix::new(vec![1, 2, 3], 3, 1);
    assert_eq!(column.to_string(), "{1, 2, 3}");
    let line = Matrix::new(vec![1, 2, 3], 1, 3);
    assert_eq!(line.to_string(), "{1 2 3}");
    let tall = Matrix::new(vec![1, 2, 3, 4, 5, 6], 3, 2);
    assert_eq!(tall.to_string(), "{1 2, 3 4, 5 6}");
    let none: Matrix<i32> = Matrix::new(vec![], 0, 0);
    assert_eq!(none.to_string(), "{}");
    let no_columns: Matrix<i32> = Matrix::new(vec![], 2, 0);
    assert_eq!(no_columns.to_string(), "{}");
    let no_rows: Matrix<i32> = Matrix::new(vec![], 0, 3);
    assert_eq!(no_rows.to_string(), "{}");
    assert_eq!(no_rows.debug_string(), "Matrix(row=0,col=3) {}");
    let negative = Matrix::new(vec![-1, 20, -300, 4], 2, 2);
    assert_eq!(negative.to_string(), "{-1 20, -300 4}");
}

#[test]
fn error_messages() {
    assert_eq!(Error::ShapeMismatch.message(), "Matrix size mismatch");
    assert_eq!(Error::SizeMismatch.message(), "Vector size mismatch");
    assert_eq!(Error::SendFailure.message(), "Reply receiver dropped");
    assert_eq!(Error::ReceiveFailure.message(), "Reply channel disconnected");
    assert_eq!(Error::KeyNotFound.message(), "key not found");
}
