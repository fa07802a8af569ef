use sp_arithmetic::{Perbill, Percent, Permill};
use vstd::prelude::*;

verus! {

/// The percentage `p / q` in whole percent, rounded down; `100` where `q`
/// is zero or `p` exceeds `q`.
pub open spec fn percent_of(p: u32, q: u32) -> u8 {
    if q == 0 || p > q {
        100
    } else {
        ((100 * p) / (q as int)) as u8
    }
}

/// `parts` per million of `value`, rounded to the nearest integer, a half
/// rounded down.
pub open spec fn permill_of(parts: u32, value: u128) -> int {
    (value * parts) / 1_000_000 + if (value * parts) % 1_000_000 > 500_000 {
        1int
    } else {
        0int
    }
}

/// `sp_arithmetic::Percent::from_rational(p, q)`: the fraction rounded
/// down to whole percent, where `q` is nonzero and `p` at most `q`, and
/// one hundred percent otherwise.
#[verifier::external_body]
pub(crate) fn percent_from_rational(p: u32, q: u32) -> (r: u8)
    ensures
        r == percent_of(p, q),
{
    Percent::from_rational(p, q).deconstruct()
}

/// `sp_arithmetic::Permill::from_parts(parts) * value`: the product
/// rounded to the nearest integer, a half rounded down.
#[verifier::external_body]
pub(crate) fn permill_mul(parts: u32, value: u128) -> (r: u128)
    requires
        parts <= 1_000_000,
    ensures
        r == permill_of(parts, value),
{
    Permill::from_parts(parts) * value
}

/// `sp_arithmetic::Perbill::from_percent(x)` in parts per billion:
/// `x` percent, at most one hundred.
#[verifier::external_body]
pub(crate) fn perbill_from_percent(x: u32) -> (r: u32)
    ensures
        r == (if x > 100 {
            1_000_000_000int
        } else {
            x * 10_000_000
        }),
{
    Perbill::from_percent(x).deconstruct()
}

} // verus!
