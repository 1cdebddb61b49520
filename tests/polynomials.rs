use fhe_rs::coefs::{get_coefs, get_powers, DataError};
use fhe_rs::fixed::SCALE;
use fhe_rs::polynomials::{poly_evaluate, poly_multiply, PolyError};
use fhe_rs::{FILL_VALUE, POLY_SIZE};

fn fx(x: f64) -> i32 {
    (x * SCALE as f64).round() as i32
}

#[test]
fn test_polynomial_evaluate() {
    let powers = [fx(1.0), fx(2.0), fx(4.0)];
    let coefs = [fx(1.0), fx(2.0), fx(3.0)];
    let result = poly_evaluate(&powers, &coefs);
    assert_eq!(result, Ok(fx(17.0)));
}

#[test]
fn test_poly_multiply() {
    let mut first = [0_i32; POLY_SIZE];
    first[1] = fx(1.0);
    let mut second = [0_i32; POLY_SIZE];
    second[2] = fx(2.5);
    let result = poly_multiply(&first, &second).unwrap();
    let mut expected_result = [0_i32; POLY_SIZE];
    expected_result[3] = fx(2.5);
    assert_eq!(result, expected_result.to_vec());
}

#[test]
fn evaluate_empty_is_zero() {
    assert_eq!(poly_evaluate(&[], &[]), Ok(0));
}

#[test]
fn evaluate_negative_rounds_down() {
    // -1/65536 * 1/65536 lies just below zero: the floor is one raw step down.
    assert_eq!(poly_evaluate(&[-1], &[1]), Ok(-1));
    assert_eq!(poly_evaluate(&[fx(-1.5)], &[fx(2.0)]), Ok(fx(-3.0)));
}

#[test]
fn evaluate_overflow() {
    let powers = [fx(30000.0), fx(30000.0)];
    let coefs = [fx(2.0), fx(2.0)];
    assert_eq!(poly_evaluate(&powers, &coefs), Err(PolyError::Overflow));
}

#[test]
fn multiply_single_terms_at_sum_of_degrees() {
    let mut a = [0_i32; POLY_SIZE];
    a[4] = fx(-3.0);
    let mut b = [0_i32; POLY_SIZE];
    b[7] = fx(0.5);
    let result = poly_multiply(&a, &b).unwrap();
    for k in 0..POLY_SIZE {
        if k == 11 {
            assert_eq!(result[k], fx(-1.5));
        } else {
            assert_eq!(result[k], 0);
        }
    }
}

#[test]
fn multiply_general_product() {
    let mut a = [0_i32; POLY_SIZE];
    a[0] = fx(1.0);
    a[1] = fx(1.0);
    let mut b = [0_i32; POLY_SIZE];
    b[0] = fx(2.0);
    b[2] = fx(1.0);
    let result = poly_multiply(&a, &b).unwrap();
    let mut expected = vec![0_i32; POLY_SIZE];
    expected[0] = fx(2.0);
    expected[1] = fx(2.0);
    expected[2] = fx(1.0);
    expected[3] = fx(1.0);
    assert_eq!(result, expected);
}

#[test]
fn multiply_capacity_error() {
    let mut a = [0_i32; POLY_SIZE];
    a[6] = fx(1.0);
    let mut b = [0_i32; POLY_SIZE];
    b[6] = fx(1.0);
    assert_eq!(
        poly_multiply(&a, &b),
        Err(PolyError::Capacity { first_degree: 6, second_degree: 6, capacity: POLY_SIZE })
    );
}

#[test]
fn multiply_fills_capacity_exactly() {
    let mut a = [0_i32; POLY_SIZE];
    a[5] = fx(1.0);
    let mut b = [0_i32; POLY_SIZE];
    b[6] = fx(2.0);
    let result = poly_multiply(&a, &b).unwrap();
    assert_eq!(result[11], fx(2.0));
}

#[test]
fn multiply_by_zero_polynomial() {
    let a = [0_i32; POLY_SIZE];
    let b = [fx(1.0); POLY_SIZE];
    assert_eq!(poly_multiply(&a, &b), Ok(vec![0_i32; POLY_SIZE]));
}

#[test]
fn multiply_overflow() {
    let mut a = [0_i32; POLY_SIZE];
    a[0] = fx(30000.0);
    let mut b = [0_i32; POLY_SIZE];
    b[0] = fx(30000.0);
    assert_eq!(poly_multiply(&a, &b), Err(PolyError::Overflow));
}

#[test]
fn coefs_are_reversed_and_padded() {
    let stored = [fx(3.0), fx(2.0), fx(1.0)];
    let coefs = get_coefs(&stored).unwrap();
    assert_eq!(coefs.len(), POLY_SIZE);
    assert_eq!(&coefs[..3], &[fx(1.0), fx(2.0), fx(3.0)]);
    for k in 3..POLY_SIZE {
        assert_eq!(coefs[k], FILL_VALUE);
    }
}

#[test]
fn coefs_fill_capacity_exactly() {
    let stored: Vec<i32> = (0..POLY_SIZE as i32).collect();
    let coefs = get_coefs(&stored).unwrap();
    let expected: Vec<i32> = (0..POLY_SIZE as i32).rev().collect();
    assert_eq!(coefs, expected);
}

#[test]
fn coefs_too_many() {
    let stored = vec![fx(1.0); POLY_SIZE + 1];
    assert_eq!(
        get_coefs(&stored),
        Err(DataError::TooManyCoefficients { count: POLY_SIZE + 1, capacity: POLY_SIZE })
    );
}

#[test]
fn powers_of_one_and_a_half() {
    let powers = get_powers(fx(1.5)).unwrap();
    assert_eq!(powers.len(), POLY_SIZE);
    for (i, p) in powers.iter().enumerate() {
        assert_eq!(*p, fx(1.5_f64.powi(i as i32)));
    }
}

#[test]
fn powers_overflow() {
    assert_eq!(get_powers(fx(100.0)), Err(PolyError::Overflow));
}
