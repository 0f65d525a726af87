//! How an agreement gets its identity: the hash of the new record together
//! with the number of the cycle in which it is created.

use crate::agreements::record::Agreement;
use crate::primitives::{AccountId, Balance, BlockNumber, Hash256};
use frame_support::sp_runtime::traits::BlakeTwo256;
use vstd::prelude::*;

verus! {

/// The 256-bit BLAKE2b digest of a record's fields and a cycle number in
/// their SCALE encoding, field after field.
pub uninterp spec fn record_digest(
    contractor: u64,
    hired: u64,
    value: u64,
    info: Seq<u8>,
    status: u8,
    block_number: u64,
) -> Seq<u8>;

/// The bytes of the identity that `agreement` gets in cycle `block_number`.
pub open spec fn id_bytes(agreement: Agreement, block_number: BlockNumber) -> Seq<u8> {
    record_digest(
        agreement.contractor,
        agreement.hired,
        agreement.value,
        agreement.info@,
        agreement.status.index_spec(),
        block_number,
    )
}

/// The identity that `agreement` gets in cycle `block_number`: the digest
/// whose bytes are `id_bytes`.
pub open spec fn id_of(agreement: Agreement, block_number: BlockNumber) -> Hash256 {
    choose|id: Hash256| id@ == id_bytes(agreement, block_number)
}

/// The identity that `agreement` gets in cycle `block_number`. It depends
/// on nothing but the record and the number, so it can be derived again
/// later.
pub fn agreement_id(agreement: &Agreement, block_number: BlockNumber) -> (id: Hash256)
    ensures
        id@ == id_bytes(*agreement, block_number),
        id == id_of(*agreement, block_number),
{
    let id = hash_of_record(
        agreement.contractor,
        agreement.hired,
        agreement.value,
        &agreement.info,
        agreement.status.index(),
        block_number,
    );
    assert(id =~= id_of(*agreement, block_number));
    id
}

/// Calls `Hash::hash_of` of `sp_runtime` for `BlakeTwo256` on the tuple of
/// the arguments. That function encodes its argument and hashes the bytes;
/// it reads nothing else, so the contract claims only that the digest is a
/// function of the six values.
#[verifier::external_body]
fn hash_of_record(
    contractor: AccountId,
    hired: AccountId,
    value: Balance,
    info: &Hash256,
    status: u8,
    block_number: BlockNumber,
) -> (digest: Hash256)
    ensures
        digest@ == record_digest(contractor, hired, value, info@, status, block_number),
{
    <BlakeTwo256 as frame_support::sp_runtime::traits::Hash>::hash_of(
        &(contractor, hired, value, info, status, block_number),
    ).0
}

} // verus!
