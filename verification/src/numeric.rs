//! The arithmetic the pallets take from the `num` crate.

use vstd::prelude::*;

verus! {

/// `num::Zero::zero` at `u32`: returns the additive identity, 0.
#[verifier::external_body]
pub(crate) fn zero_u32() -> (r: u32)
    ensures
        r == 0,
{
    num::Zero::zero()
}

/// `num::One::one` at `u32`: returns the multiplicative identity, 1.
#[verifier::external_body]
pub(crate) fn one_u32() -> (r: u32)
    ensures
        r == 1,
{
    num::One::one()
}

/// `num::Zero::zero` at `u128`: returns the additive identity, 0.
#[verifier::external_body]
pub(crate) fn zero_u128() -> (r: u128)
    ensures
        r == 0,
{
    num::Zero::zero()
}

/// `num::CheckedAdd::checked_add` at `u128`: the sum, or `None` when the sum
/// does not fit in a `u128`.
#[verifier::external_body]
pub(crate) fn checked_add_u128(a: u128, b: u128) -> (r: Option<u128>)
    ensures
        a + b <= u128::MAX ==> r == Some((a + b) as u128),
        a + b > u128::MAX ==> r.is_none(),
{
    num::CheckedAdd::checked_add(&a, &b)
}

/// `num::CheckedSub::checked_sub` at `u128`: the difference, or `None` when
/// the subtrahend is the larger number.
#[verifier::external_body]
pub(crate) fn checked_sub_u128(a: u128, b: u128) -> (r: Option<u128>)
    ensures
        a >= b ==> r == Some((a - b) as u128),
        a < b ==> r.is_none(),
{
    num::CheckedSub::checked_sub(&a, &b)
}

} // verus!
