//! The share of the bucket that a weight stands for.

use crate::primitives::{saturated_balance, u128_to_balance, Balance};
use vstd::prelude::*;

verus! {

/// Weights are points out of this many.
pub const WEIGHT_POINTS: u128 = 100;

/// The share of `bucket` for `weight` points out of a hundred, rounded
/// down.
pub open spec fn share(weight: u128, bucket: u128) -> int {
    weight * bucket / 100
}

/// The share as a wide unsigned number: the largest one where the share
/// exceeds it.
pub open spec fn saturated_share(weight: u128, bucket: u128) -> u128 {
    if share(weight, bucket) > u128::MAX {
        u128::MAX
    } else {
        share(weight, bucket) as u128
    }
}

/// What an account with `weight` points receives of `bucket`: the share,
/// or the largest balance where the share exceeds it.
pub open spec fn payout(weight: u128, bucket: u128) -> Balance {
    saturated_balance(share(weight, bucket))
}

/// The bucket after `value` was paid in: the sum, or the largest number the
/// bucket can hold where the sum exceeds it.
pub open spec fn accumulated(bucket: u128, value: u128) -> u128 {
    if bucket + value > u128::MAX {
        u128::MAX
    } else {
        (bucket + value) as u128
    }
}

/// Adds `value` to `bucket` without wrapping.
pub fn accumulate(bucket: u128, value: u128) -> (sum: u128)
    ensures
        sum == accumulated(bucket, value),
{
    bucket.saturating_add(value)
}

/// The share of `bucket` for `weight`, computed without ever leaving 128
/// bits: weight and bucket are split at the hundred, so that only the
/// product of the two quotient parts can be too large.
pub fn to_receive(weight: u128, bucket: u128) -> (amount: u128)
    ensures
        amount == saturated_share(weight, bucket),
{
    let weight_hundreds: u128 = weight / WEIGHT_POINTS;
    let weight_rest: u128 = weight % WEIGHT_POINTS;
    let bucket_hundreds: u128 = bucket / WEIGHT_POINTS;
    let bucket_rest: u128 = bucket % WEIGHT_POINTS;
    assert(weight * bucket == 100 * (weight_hundreds * bucket + weight_rest * bucket_hundreds)
        + weight_rest * bucket_rest) by (nonlinear_arith)
        requires
            weight == 100 * weight_hundreds + weight_rest,
            bucket == 100 * bucket_hundreds + bucket_rest,
    ;
    assert(0 <= weight_rest * bucket_rest <= 99 * 99) by (nonlinear_arith)
        requires
            0 <= weight_rest <= 99,
            0 <= bucket_rest <= 99,
    ;
    assert(0 <= weight_rest * bucket_hundreds <= 99 * bucket_hundreds) by (nonlinear_arith)
        requires
            0 <= weight_rest <= 99,
            0 <= bucket_hundreds,
    ;
    assert(0 <= weight_hundreds * bucket) by (nonlinear_arith)
        requires
            0 <= weight_hundreds,
            0 <= bucket,
    ;
    let small: u128 = weight_rest * bucket_hundreds + (weight_rest * bucket_rest) / WEIGHT_POINTS;
    assert(share(weight, bucket) == weight_hundreds * bucket + small);
    match weight_hundreds.checked_mul(bucket) {
        Some(large) => match large.checked_add(small) {
            Some(amount) => amount,
            None => u128::MAX,
        },
        None => u128::MAX,
    }
}

/// What an account with `weight` points receives of `bucket`, as a
/// balance.
pub fn payout_of(weight: u128, bucket: u128) -> (amount: Balance)
    ensures
        amount == payout(weight, bucket),
{
    u128_to_balance(to_receive(weight, bucket))
}

} // verus!
