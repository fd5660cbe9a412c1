use polynomial::{evaluate_at, polynomial, polynomial_shared};
use std::rc::Rc;

#[test]
fn cubic_at_two() {
    let c: Vec<i64> = vec![0, 1, 2, 3];
    let e = polynomial(&c);
    assert_eq!(e.evaluate(2), Some(34));
}

#[test]
fn quadratic_at_three() {
    let c: Vec<i64> = vec![0, 1, 2];
    let e = polynomial(&c);
    assert_eq!(e.evaluate(3), Some(21));
}

#[test]
fn empty_sequence_is_zero_everywhere() {
    let c: Vec<i64> = vec![];
    let e = polynomial(&c);
    assert_eq!(e.evaluate(0), Some(0));
    assert_eq!(e.evaluate(1), Some(0));
    assert_eq!(e.evaluate(-5), Some(0));
    assert_eq!(e.evaluate(i64::MAX), Some(0));
    assert_eq!(e.evaluate(i64::MIN), Some(0));
}

#[test]
fn single_coefficient_is_constant() {
    let c: Vec<i64> = vec![42];
    let e = polynomial(&c);
    assert_eq!(e.evaluate(0), Some(42));
    assert_eq!(e.evaluate(-3), Some(42));
    assert_eq!(e.evaluate(1000), Some(42));
}

#[test]
fn matches_reference_sum() {
    let c: Vec<i64> = vec![5, -4, 0, 2, 7];
    let x: i64 = -3;
    let mut expected: i64 = 0;
    let mut power: i64 = 1;
    let mut i: usize = 0;
    while i < c.len() {
        expected += c[i] * power;
        power *= x;
        i += 1;
    }
    let e = polynomial(&c);
    assert_eq!(e.evaluate(x), Some(expected));
}

#[test]
fn negative_point() {
    let c: Vec<i64> = vec![1, -1, 1];
    let e = polynomial(&c);
    assert_eq!(e.evaluate(-2), Some(7));
}

#[test]
fn evaluate_slice_directly() {
    let c: [i64; 3] = [2, 0, 1];
    assert_eq!(evaluate_at(&c, 4), Some(18));
}

#[test]
fn borrowed_evaluator_within_sequence_scope() {
    let c: Vec<i64> = vec![1, 1, 1];
    let e = polynomial(&c);
    assert_eq!(e.evaluate(10), Some(111));
    assert_eq!(c, vec![1, 1, 1]);
}

#[test]
fn shared_evaluator_returned_from_inner_scope() {
    let e = {
        let handle = Rc::new(vec![0i64, 1, 2, 3]);
        polynomial_shared(handle)
    };
    assert_eq!(e.evaluate(2), Some(34));
}

#[test]
fn shared_evaluator_survives_drop_of_caller_handle() {
    let handle = Rc::new(vec![7i64, -2]);
    let e = polynomial_shared(Rc::clone(&handle));
    drop(handle);
    assert_eq!(e.evaluate(5), Some(-3));
}

#[test]
fn repeated_invocation_is_identical() {
    let c: Vec<i64> = vec![3, 0, -1, 8];
    let e = polynomial(&c);
    let first = e.evaluate(4);
    let second = e.evaluate(4);
    assert_eq!(first, Some(499));
    assert_eq!(first, second);
    assert_eq!(e.evaluate(4), second);
}

#[test]
fn term_overflow_is_reported() {
    let c: Vec<i64> = vec![i64::MAX, i64::MAX];
    let e = polynomial(&c);
    assert_eq!(e.evaluate(2), None);
}

#[test]
fn sum_overflow_is_reported() {
    let c: Vec<i64> = vec![i64::MAX, 1];
    let e = polynomial(&c);
    assert_eq!(e.evaluate(1), None);
}

#[test]
fn power_overflow_is_reported() {
    let c: Vec<i64> = vec![0, 0, 0];
    let e = polynomial(&c);
    assert_eq!(e.evaluate(i64::MAX), None);
}

#[test]
fn large_values_in_range_succeed() {
    let c: Vec<i64> = vec![i64::MAX - 1, 1];
    let e = polynomial(&c);
    assert_eq!(e.evaluate(1), Some(i64::MAX));
}
