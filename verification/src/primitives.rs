//! The plain values that both ledgers work on, and the conversions between
//! the numeric types they use.

use frame_support::sp_runtime::SaturatedConversion;
use vstd::prelude::*;

verus! {

/// Identity of an account.
pub type AccountId = u64;

/// An amount of value held by an account or in custody.
pub type Balance = u64;

/// Sequence number of a settlement cycle.
pub type BlockNumber = u64;

/// A 256-bit digest: the identity of an agreement, or a reference to
/// content that is kept elsewhere.
pub type Hash256 = [u8; 32];

/// `input` as a balance, or the largest balance when `input` exceeds it.
pub open spec fn saturated_balance(input: int) -> Balance {
    if input > Balance::MAX {
        Balance::MAX
    } else if input < 0 {
        0
    } else {
        input as Balance
    }
}

/// Whether two digests hold the same bytes.
pub fn hash_eq(a: &Hash256, b: &Hash256) -> (same: bool)
    ensures
        same == (*a == *b),
{
    let mut i: usize = 0;
    while i < 32
        invariant
            i <= 32,
            forall|j: int| 0 <= j < i ==> a@[j] == b@[j],
        decreases 32 - i,
    {
        if a[i] != b[i] {
            return false;
        }
        i += 1;
    }
    assert(*a =~= *b);
    true
}

/// Widens a small unsigned number to a balance.
pub fn u32_to_balance(input: u32) -> (balance: Balance)
    ensures
        balance == input,
{
    input.into()
}

/// Narrows a wide unsigned number to a balance, stopping at the largest
/// balance instead of wrapping.
pub fn u128_to_balance(input: u128) -> (balance: Balance)
    ensures
        balance == saturated_balance(input as int),
{
    saturated_into_balance(input)
}

/// Calls `SaturatedConversion::saturated_into` of `sp_runtime` from `u128`
/// to `u64`. That function tries the checked conversion and falls back to
/// the target's largest value, so the contract claims: the input itself
/// where it fits, `u64::MAX` where it does not.
#[verifier::external_body]
fn saturated_into_balance(input: u128) -> (balance: Balance)
    ensures
        balance == saturated_balance(input as int),
{
    input.saturated_into()
}

} // verus!
