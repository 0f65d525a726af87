//! What holds of the shares and of the distribution, whatever the bucket
//! and the tickets.

use crate::founders::pallet::State;
use crate::founders::payout::{payout, share};
use crate::primitives::{AccountId, Balance};
use vstd::prelude::*;

verus! {

/// The sum of the weights.
pub open spec fn total_weight(weights: Seq<u128>) -> int
    decreases weights.len(),
{
    if weights.len() == 0 {
        0
    } else {
        total_weight(weights.drop_last()) + weights.last()
    }
}

/// The sum of the shares that the weights stand for.
pub open spec fn total_share(weights: Seq<u128>, bucket: u128) -> int
    decreases weights.len(),
{
    if weights.len() == 0 {
        0
    } else {
        total_share(weights.drop_last(), bucket) + share(weights.last(), bucket)
    }
}

/// All hundred points take the whole bucket, and no weight up to a
/// hundred takes more than the bucket.
pub proof fn law_share_within_bucket(weight: u128, bucket: u128)
    requires
        weight <= 100,
    ensures
        0 <= share(weight, bucket) <= bucket,
        weight == 100 ==> share(weight, bucket) == bucket,
        weight == 0 ==> share(weight, bucket) == 0,
{
    assert(0 <= weight * bucket <= 100 * bucket) by (nonlinear_arith)
        requires
            0 <= weight <= 100,
            0 <= bucket,
    ;
    if weight == 100 {
        assert(weight * bucket == 100 * bucket) by (nonlinear_arith)
            requires
                weight == 100,
        ;
    }
    if weight == 0 {
        assert(weight * bucket == 0) by (nonlinear_arith)
            requires
                weight == 0,
        ;
    }
}

/// A larger weight never gets a smaller share, and a larger bucket never
/// gives a smaller share.
pub proof fn law_share_is_monotonic(weight: u128, more_weight: u128, bucket: u128, more_bucket: u128)
    requires
        weight <= more_weight,
        bucket <= more_bucket,
    ensures
        share(weight, bucket) <= share(more_weight, more_bucket),
        payout(weight, bucket) <= payout(more_weight, more_bucket),
{
    assert(0 <= weight * bucket <= more_weight * more_bucket) by (nonlinear_arith)
        requires
            0 <= weight <= more_weight,
            0 <= bucket <= more_bucket,
    ;
}

/// Weights that add up to at most a hundred points never share out more
/// than the bucket holds.
pub proof fn law_distribution_within_bucket(weights: Seq<u128>, bucket: u128)
    requires
        total_weight(weights) <= 100,
    ensures
        0 <= total_share(weights, bucket) <= bucket,
{
    lemma_total_share(weights, bucket);
    let total = total_weight(weights);
    assert(0 <= total * bucket <= 100 * bucket) by (nonlinear_arith)
        requires
            0 <= total <= 100,
            0 <= bucket,
    ;
}

/// The shares add up to no more than the share of the weights' sum.
proof fn lemma_total_share(weights: Seq<u128>, bucket: u128)
    ensures
        0 <= total_weight(weights),
        0 <= total_share(weights, bucket) <= (total_weight(weights) * bucket) / 100,
    decreases weights.len(),
{
    if weights.len() == 0 {
        assert(0 * bucket == 0) by (nonlinear_arith);
    } else {
        let rest = weights.drop_last();
        let last = weights.last();
        lemma_total_share(rest, bucket);
        let rest_weight = total_weight(rest);
        assert((rest_weight + last) * bucket == rest_weight * bucket + last * bucket)
            by (nonlinear_arith);
        assert(0 <= rest_weight * bucket) by (nonlinear_arith)
            requires
                0 <= rest_weight,
                0 <= bucket,
        ;
        assert(0 <= last * bucket) by (nonlinear_arith)
            requires
                0 <= last,
                0 <= bucket,
        ;
    }
}

/// What an account receives in a distribution depends on its own weight
/// and on the bucket, and on nothing else: an account without a ticket
/// keeps what it has, and two sets of tickets that give an account the
/// same weight give it the same balance.
pub proof fn law_payout_by_own_weight(
    state: State,
    other: State,
    balances: Map<AccountId, Balance>,
    who: AccountId,
)
    requires
        state.bucket == other.bucket,
        state.weight(who) == other.weight(who),
    ensures
        state.distributed(balances)[who] == other.distributed(balances)[who],
        !state.tickets.contains_key(who) ==> state.distributed(balances)[who] == balances[who],
        state.distributed(balances)[who] >= balances[who],
{
    assert(0 * state.bucket == 0) by (nonlinear_arith);
    assert(0 <= state.weight(who) * state.bucket) by (nonlinear_arith)
        requires
            0 <= state.weight(who),
            0 <= state.bucket,
    ;
}

} // verus!
