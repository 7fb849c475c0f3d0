//! Checked arithmetic on `u64`, with typed errors in place of wrap-around or panics.

use vstd::prelude::*;

verus! {

/// The errors of the arithmetic helpers.
#[derive(Debug, Clone, Copy, PartialEq, Eq)]
pub enum PlaygroundError {
    /// The exact result of an operation on `a` and `b` does not fit in a `u64`.
    IntegerOverflow { a: u64, b: u64 },
    /// A division of `dividend` by zero was asked for.
    DivideByZero { dividend: u64 },
}

/// `a + b`, or `IntegerOverflow` when the sum exceeds `u64::MAX`.
pub fn add(a: u64, b: u64) -> (r: Result<u64, PlaygroundError>)
    ensures
        a + b <= u64::MAX ==> r == Ok::<u64, PlaygroundError>((a + b) as u64),
        a + b > u64::MAX ==> r == Err::<u64, PlaygroundError>(PlaygroundError::IntegerOverflow { a, b }),
{
    match a.checked_add(b) {
        Some(s) => Ok(s),
        None => Err(PlaygroundError::IntegerOverflow { a, b }),
    }
}

/// `a - b`, or `IntegerOverflow` when `b > a`.
pub fn sub(a: u64, b: u64) -> (r: Result<u64, PlaygroundError>)
    ensures
        b <= a ==> r == Ok::<u64, PlaygroundError>((a - b) as u64),
        b > a ==> r == Err::<u64, PlaygroundError>(PlaygroundError::IntegerOverflow { a, b }),
{
    match a.checked_sub(b) {
        Some(d) => Ok(d),
        None => Err(PlaygroundError::IntegerOverflow { a, b }),
    }
}

/// Integer division rounding toward zero, or `DivideByZero` when `divisor` is zero.
pub fn div(dividend: u64, divisor: u64) -> (r: Result<u64, PlaygroundError>)
    ensures
        divisor != 0 ==> r == Ok::<u64, PlaygroundError>((dividend / divisor) as u64),
        divisor == 0 ==> r == Err::<u64, PlaygroundError>(PlaygroundError::DivideByZero { dividend }),
{
    if divisor == 0 {
        return Err(PlaygroundError::DivideByZero { dividend });
    }
    Ok(dividend / divisor)
}

/// Whether `a` and `b` are the same number.
pub fn equal(a: u64, b: u64) -> (r: bool)
    ensures
        r == (a == b),
{
    a == b
}

/// Does nothing; a probe for the cost of a call across the binding layer.
pub fn no_op() {
}

} // verus!
