use vstd::prelude::*;

verus! {

/// Errors that the contract functions return.
#[derive(Clone, Copy, Debug, PartialEq, Eq, Structural)]
pub enum ContractError {
    InvalidAmount,
    ArithmeticError,
    InvalidInput,
    InvalidParameters,
    InvalidStateTransition,
    LoanNotFound,
    NotFound,
    Unauthorized,
    ContractPaused,
}

/// Identity of an account (voucher, borrower, token or contract).
#[derive(Clone, Copy, Debug, PartialEq, Eq, Structural)]
pub struct AccountId {
    pub id: u64,
}

/// Denominator of all basis-point quantities.
pub const BPS_DENOMINATOR: i128 = 10_000;

/// Whether `x` is a value of `i128`.
pub open spec fn fits_i128(x: int) -> bool {
    i128::MIN <= x <= i128::MAX
}

/// `i128::saturating_add`.
pub open spec fn sat_add(a: int, b: int) -> i128 {
    if a + b > i128::MAX {
        i128::MAX
    } else if a + b < i128::MIN {
        i128::MIN
    } else {
        (a + b) as i128
    }
}

/// `i128::saturating_sub`.
pub open spec fn sat_sub(a: int, b: int) -> i128 {
    sat_add(a, -b)
}

/// `i128::saturating_mul`.
pub open spec fn sat_mul(a: int, b: int) -> i128 {
    sat_add(a * b, 0)
}

/// Division that rounds toward zero, as Rust's `/` does on signed integers.
pub open spec fn div_trunc(a: int, b: int) -> int {
    if a >= 0 && b > 0 {
        a / b
    } else if a < 0 && b > 0 {
        -((-a) / b)
    } else if a >= 0 && b < 0 {
        -(a / (-b))
    } else {
        (-a) / (-b)
    }
}

/// Saturating addition on `i128`.
pub fn saturating_add_i128(a: i128, b: i128) -> (r: i128)
    ensures
        r == sat_add(a as int, b as int),
{
    match a.checked_add(b) {
        Some(v) => v,
        None => if b > 0 {
            i128::MAX
        } else {
            i128::MIN
        },
    }
}

/// Saturating subtraction on `i128`.
pub fn saturating_sub_i128(a: i128, b: i128) -> (r: i128)
    ensures
        r == sat_sub(a as int, b as int),
{
    match a.checked_sub(b) {
        Some(v) => v,
        None => if b < 0 {
            i128::MAX
        } else {
            i128::MIN
        },
    }
}

/// Saturating multiplication on `i128`.
pub fn saturating_mul_i128(a: i128, b: i128) -> (r: i128)
    ensures
        r == sat_mul(a as int, b as int),
{
    match a.checked_mul(b) {
        Some(v) => v,
        None => {
            assert((a < 0) == (b < 0) <==> a * b > 0) by (nonlinear_arith)
                requires a * b > i128::MAX || a * b < i128::MIN;
            if (a < 0) == (b < 0) {
                i128::MAX
            } else {
                i128::MIN
            }
        },
    }
}

/// Saturating multiplication on `u128`.
pub fn saturating_mul_u128(a: u128, b: u128) -> (r: u128)
    ensures
        r == sat_mul_u128(a as int, b as int),
{
    match a.checked_mul(b) {
        Some(v) => v,
        None => u128::MAX,
    }
}

/// `u128::saturating_mul`.
pub open spec fn sat_mul_u128(a: int, b: int) -> u128 {
    if a * b > u128::MAX {
        u128::MAX
    } else {
        (a * b) as u128
    }
}

/// Signed division rounding toward zero, for a positive divisor.
pub fn div_i128(a: i128, b: i128) -> (r: i128)
    requires
        b > 0,
    ensures
        r == div_trunc(a as int, b as int),
{
    match a.checked_div(b) {
        Some(v) => v,
        None => {
            assert(false);
            0
        },
    }
}

} // verus!
