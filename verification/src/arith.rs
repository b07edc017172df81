//! The arithmetic safety layer: checked operations over the balance type.
//!
//! Every arithmetic step of a pool operation goes through one of these
//! functions and either returns the exact mathematical result or signals
//! [`Error::Overflow`]. Division by zero signals `Overflow` as well; nothing
//! wraps, saturates or panics.

use vstd::prelude::*;

use crate::errors::Error;

verus! {

/// The sum `a + b`, or `Overflow` when it exceeds `u64::MAX`.
pub fn checked_add(a: u64, b: u64) -> (r: Result<u64, Error>)
    ensures
        a + b <= u64::MAX ==> r == Ok::<u64, Error>((a + b) as u64),
        a + b > u64::MAX ==> r == Err::<u64, Error>(Error::Overflow),
{
    match a.checked_add(b) {
        Some(v) => Ok(v),
        None => Err(Error::Overflow),
    }
}

/// The difference `a - b`, or `Overflow` when it would be negative.
pub fn checked_sub(a: u64, b: u64) -> (r: Result<u64, Error>)
    ensures
        a >= b ==> r == Ok::<u64, Error>((a - b) as u64),
        a < b ==> r == Err::<u64, Error>(Error::Overflow),
{
    match a.checked_sub(b) {
        Some(v) => Ok(v),
        None => Err(Error::Overflow),
    }
}

/// The product `a * b`, or `Overflow` when it exceeds `u64::MAX`.
pub fn checked_mul(a: u64, b: u64) -> (r: Result<u64, Error>)
    ensures
        a * b <= u64::MAX ==> r == Ok::<u64, Error>((a * b) as u64),
        a * b > u64::MAX ==> r == Err::<u64, Error>(Error::Overflow),
{
    match a.checked_mul(b) {
        Some(v) => Ok(v),
        None => Err(Error::Overflow),
    }
}

/// The truncating quotient `a / b`, or `Overflow` when `b` is zero.
pub fn checked_div(a: u64, b: u64) -> (r: Result<u64, Error>)
    ensures
        b != 0 ==> r == Ok::<u64, Error>((a as int / b as int) as u64),
        b == 0 ==> r == Err::<u64, Error>(Error::Overflow),
{
    match a.checked_div(b) {
        Some(v) => Ok(v),
        None => Err(Error::Overflow),
    }
}

} // verus!
