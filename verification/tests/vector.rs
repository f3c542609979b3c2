use concurrency::{dot_product, Error, Vector};

#[test]
fn vector_keeps_its_elements() {
    let v = Vector::new(vec![3, 1, 4, 1, 5]);
    assert_eq!(v.len(), 5);
    assert_eq!(v.as_slice(), &[3, 1, 4, 1, 5]);
}

#[test]
fn dot_product_is_the_same_in_either_order() {
    let a = vec![3i64, -4, 5, 0, 12];
    let b = vec![7i64, 2, -9, 6, 1];
    let ab = dot_product(Vector::new(a.clone()), Vector::new(b.clone())).unwrap();
    let ba = dot_product(Vector::new(b), Vector::new(a)).unwrap();
    assert_eq!(ab, ba);
    assert_eq!(ab, 21 - 8 - 45 + 0 + 12);
}

#[test]
fn dot_product_of_lengths_that_differ_fails() {
    for (n, m) in [(0usize, 1usize), (1, 0), (3, 2), (2, 3), (5, 1), (1, 7)] {
        let a = Vector::new(vec![1i32; n]);
        let b = Vector::new(vec![1i32; m]);
        assert_eq!(dot_product(a, b), Err(Error::SizeMismatch));
    }
}

#[test]
fn dot_product_of_nothing_is_zero() {
    let a: Vector<i32> = Vector::new(vec![]);
    let b: Vector<i32> = Vector::new(vec![]);
    assert_eq!(dot_product(a, b), Ok(0));
}

#[test]
fn dot_product_of_one_pair() {
    assert_eq!(dot_product(Vector::new(vec![6u8]), Vector::new(vec![7u8])), Ok(42));
}

#[test]
fn dot_product_of_floats() {
    let a = Vector::new(vec![0.5f64, 1.5, 2.0]);
    let b = Vector::new(vec![4.0f64, 2.0, 0.25]);
    assert_eq!(dot_product(a, b), Ok(5.5));
}
