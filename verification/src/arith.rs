use sp_arithmetic::{FixedPointNumber, FixedU128, Perbill};
use vstd::prelude::*;

verus! {

/// Parts in a whole for `Perbill`.
pub const PERBILL_ACCURACY: u32 = 1_000_000_000;

/// The inner value of `FixedU128` that stands for one.
pub const FIXED_U128_DIV: u128 = 1_000_000_000_000_000_000;

/// The parts of a `Perbill` built from `x` percent: `x` capped at a hundred, times ten
/// million.
pub open spec fn spec_perbill_from_percent(x: u32) -> int {
    (if x > 100 { 100 } else { x as int }) * (PERBILL_ACCURACY / 100)
}

/// The inner value of a `FixedU128` built from `n / d`: `n * DIV / d` rounded down, or the
/// largest inner value when that does not fit.
pub open spec fn spec_fixed_u128_from_rational(n: u128, d: u128) -> int
    recommends
        d != 0,
{
    let exact = (n as int) * (FIXED_U128_DIV as int) / (d as int);
    if exact <= u128::MAX {
        exact
    } else {
        u128::MAX as int
    }
}

/// `Perbill::from_percent(x).deconstruct()`: `min(x, 100) * 10_000_000` parts per billion.
#[verifier::external_body]
pub(crate) fn perbill_from_percent(x: u32) -> (parts: u32)
    ensures
        parts == spec_perbill_from_percent(x),
{
    Perbill::from_percent(x).deconstruct()
}

/// `FixedU128::saturating_from_rational(n, d).into_inner()`: `n * 10^18 / d` rounded down,
/// saturating at `u128::MAX`. It panics when `d` is zero, which `requires` leaves out.
#[verifier::external_body]
pub(crate) fn fixed_u128_saturating_from_rational(n: u128, d: u128) -> (inner: u128)
    requires
        d != 0,
    ensures
        inner == spec_fixed_u128_from_rational(n, d),
{
    FixedU128::saturating_from_rational(n, d).into_inner()
}

} // verus!
