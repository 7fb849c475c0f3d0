use playground::{add, div, equal, no_op, sub, PlaygroundError};

#[test]
fn add_small_numbers() {
    assert_eq!(add(2, 3), Ok(5));
}

#[test]
fn add_overflow_is_an_error() {
    assert_eq!(add(u64::MAX, 1), Err(PlaygroundError::IntegerOverflow { a: u64::MAX, b: 1 }));
}

#[test]
fn add_up_to_the_largest_value() {
    assert_eq!(add(u64::MAX - 1, 1), Ok(u64::MAX));
}

#[test]
fn sub_below_zero_is_an_error() {
    assert_eq!(sub(0, 1), Err(PlaygroundError::IntegerOverflow { a: 0, b: 1 }));
}

#[test]
fn sub_small_numbers() {
    assert_eq!(sub(10, 4), Ok(6));
    assert_eq!(sub(4, 4), Ok(0));
}

#[test]
fn div_rounds_toward_zero() {
    assert_eq!(div(7, 2), Ok(3));
    assert_eq!(div(u64::MAX, 1), Ok(u64::MAX));
}

#[test]
fn div_by_zero_is_an_error() {
    assert_eq!(div(9, 0), Err(PlaygroundError::DivideByZero { dividend: 9 }));
}

#[test]
fn equal_compares_values() {
    assert!(equal(4, 4));
    assert!(!equal(4, 5));
}

#[test]
fn no_op_returns() {
    no_op();
}
