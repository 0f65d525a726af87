//! What holds of the operations on agreements, whatever the state, the
//! caller and the arguments.

use crate::agreements::pallet::{occurs_once, settled, State};
use crate::agreements::record::{
    validation_error, Agreement, AgreementStatus, DispatchError, Error, Transition,
};
use crate::currency::{credited, withdraw_error, withdrawn, ExistenceRequirement};
use crate::primitives::{AccountId, Balance, Hash256};
use vstd::prelude::*;

verus! {

/// A successful creation takes exactly `value` from the caller and from
/// nobody else, adds exactly one record, which is unsigned, leaves every
/// other record as it was, and puts the new identity at the end of the
/// lists of both parties and of nobody else.
pub proof fn law_create_effect(
    state: State,
    balances: Map<AccountId, Balance>,
    minimum: Balance,
    limit: u32,
    id: Hash256,
    caller: AccountId,
    hired: AccountId,
    value: Balance,
    info: Hash256,
)
    requires
        state.create_error(balances, minimum, limit, id, caller, hired, value) is None,
    ensures
        ({
            let after = state.created(id, Agreement::fresh(caller, hired, value, info));
            let paid = withdrawn(balances, caller, value);
            &&& paid[caller] == balances[caller] - value
            &&& forall|who: AccountId| who != caller ==> paid[who] == balances[who]
            &&& !state.agreements.contains_key(id)
            &&& after.agreements.dom() == state.agreements.dom().insert(id)
            &&& after.agreements[id] == Agreement::fresh(caller, hired, value, info)
            &&& after.agreements[id].status == AgreementStatus::NotSigned
            &&& forall|other: Hash256|
                other != id && state.agreements.contains_key(other) ==> after.agreements[other]
                    == state.agreements[other]
            &&& after.user_agreements[caller] == state.user_agreements[caller].push(id)
            &&& after.user_agreements[hired] == state.user_agreements[hired].push(id)
            &&& after.user_agreements[caller].last() == id
            &&& after.user_agreements[hired].last() == id
            &&& after.user_agreements[caller].len() == state.user_agreements[caller].len() + 1
            &&& after.user_agreements[hired].len() == state.user_agreements[hired].len() + 1
            &&& after.user_agreements[caller].len() <= limit
            &&& after.user_agreements[hired].len() <= limit
            &&& forall|who: AccountId|
                who != caller && who != hired ==> after.user_agreements[who]
                    == state.user_agreements[who]
        }),
{
}

/// Once an agreement is canceled or complete, every transition on it
/// fails, whoever asks, and its identity cannot be used for a new
/// agreement.
pub proof fn law_terminal_is_final(
    state: State,
    id: Hash256,
    caller: AccountId,
    transition: Transition,
)
    requires
        state.agreements.contains_key(id),
        state.agreements[id].status.is_terminal(),
    ensures
        state.step(caller, id, transition) is Err,
        forall|
            balances: Map<AccountId, Balance>,
            minimum: Balance,
            limit: u32,
            hired: AccountId,
            value: Balance,
        |
            (#[trigger] state.create_error(
                balances,
                minimum,
                limit,
                id,
                caller,
                hired,
                value,
            )) is Some,
{
}

/// After a successful cancel, every further transition on the same
/// agreement fails, whoever asks.
pub proof fn law_cancel_is_final(
    state: State,
    id: Hash256,
    contractor: AccountId,
    caller: AccountId,
    transition: Transition,
)
    requires
        state.step(contractor, id, Transition::Cancel) is Ok,
    ensures
        state.stepped(id, state.step(contractor, id, Transition::Cancel)->Ok_0).step(
            caller,
            id,
            transition,
        ) is Err,
{
}

/// Create, then cancel: the cancel goes through, and every account holds
/// what it held before the creation. The value comes back whole.
pub proof fn law_create_then_cancel_restores_balances(
    state: State,
    balances: Map<AccountId, Balance>,
    minimum: Balance,
    limit: u32,
    id: Hash256,
    caller: AccountId,
    hired: AccountId,
    value: Balance,
    info: Hash256,
)
    requires
        state.create_error(balances, minimum, limit, id, caller, hired, value) is None,
    ensures
        ({
            let record = Agreement::fresh(caller, hired, value, info);
            let created = state.created(id, record);
            let paid = withdrawn(balances, caller, value);
            let canceled = record.with_status(AgreementStatus::Canceled);
            &&& created.step(caller, id, Transition::Cancel) == Ok::<Agreement, Error>(canceled)
            &&& forall|who: AccountId|
                settled(paid, canceled, Transition::Cancel)[who] == balances[who]
        }),
{
}

/// The whole way of an agreement: once it is created, the hired party can
/// sign it and put it in review, and the contractor can accept it. It is
/// then complete, and every account holds what it held before the
/// creation: the value went back to the contractor.
pub proof fn law_accepted_agreement_restores_balances(
    state: State,
    balances: Map<AccountId, Balance>,
    minimum: Balance,
    limit: u32,
    id: Hash256,
    caller: AccountId,
    hired: AccountId,
    value: Balance,
    info: Hash256,
)
    requires
        state.create_error(balances, minimum, limit, id, caller, hired, value) is None,
    ensures
        ({
            let record = Agreement::fresh(caller, hired, value, info);
            let signed = record.with_status(AgreementStatus::Signed);
            let in_review = record.with_status(AgreementStatus::InReview);
            let complete = record.with_status(AgreementStatus::Complete);
            let created = state.created(id, record);
            let paid = withdrawn(balances, caller, value);
            &&& created.step(hired, id, Transition::Sign) == Ok::<Agreement, Error>(signed)
            &&& created.stepped(id, signed).step(hired, id, Transition::SetReview) == Ok::<
                Agreement,
                Error,
            >(in_review)
            &&& created.stepped(id, signed).stepped(id, in_review).step(
                caller,
                id,
                Transition::Accept,
            ) == Ok::<Agreement, Error>(complete)
            &&& forall|who: AccountId|
                settled(paid, complete, Transition::Accept)[who] == balances[who]
        }),
{
}

/// A record is never taken out of the store, and no operation changes the
/// parties, the value or the terms of a record that is there.
pub proof fn law_records_stay(
    state: State,
    known: Hash256,
    id: Hash256,
    caller: AccountId,
    transition: Transition,
    agreement: Agreement,
)
    requires
        state.agreements.contains_key(known),
    ensures
        !state.agreements.contains_key(id) ==> {
            let after = state.created(id, agreement);
            after.agreements.contains_key(known) && after.agreements[known]
                == state.agreements[known]
        },
        state.step(caller, id, transition) is Ok ==> {
            let after = state.stepped(id, state.step(caller, id, transition)->Ok_0);
            &&& after.agreements.contains_key(known)
            &&& after.agreements[known].contractor == state.agreements[known].contractor
            &&& after.agreements[known].hired == state.agreements[known].hired
            &&& after.agreements[known].value == state.agreements[known].value
            &&& after.agreements[known].info == state.agreements[known].info
            &&& known != id ==> after.agreements[known] == state.agreements[known]
            &&& after.user_agreements == state.user_agreements
        },
{
}

/// Sign, then unsign: the unsign goes through and the agreement is the
/// record it was before, unsigned. Neither step moves any value.
pub proof fn law_sign_then_unsign(state: State, id: Hash256, caller: AccountId)
    requires
        state.step(caller, id, Transition::Sign) is Ok,
    ensures
        ({
            let signed = state.step(caller, id, Transition::Sign)->Ok_0;
            let between = state.stepped(id, signed);
            &&& signed.status == AgreementStatus::Signed
            &&& between.step(caller, id, Transition::Unsign) == Ok::<Agreement, Error>(
                state.agreements[id],
            )
            &&& state.agreements[id].status == AgreementStatus::NotSigned
            &&& between.stepped(id, state.agreements[id]) == state
            &&& forall|balances: Map<AccountId, Balance>|
                #![trigger settled(balances, signed, Transition::Sign)]
                settled(balances, signed, Transition::Sign) == balances
            &&& forall|balances: Map<AccountId, Balance>|
                #![trigger settled(balances, state.agreements[id], Transition::Unsign)]
                settled(balances, state.agreements[id], Transition::Unsign) == balances
        }),
{
    let signed = state.step(caller, id, Transition::Sign)->Ok_0;
    let between = state.stepped(id, signed);
    assert(between.stepped(id, state.agreements[id]).agreements =~= state.agreements);
}

/// A record is created unsigned, and each status further along the way to
/// `Complete` is reached by one transition from one status only: `Signed`
/// by signing an unsigned agreement, `InReview` by putting a signed one in
/// review, `Complete` by accepting one in review.
pub proof fn law_only_path_to_complete(
    agreement: Agreement,
    caller: AccountId,
    transition: Transition,
)
    requires
        agreement.after(caller, transition) is Ok,
    ensures
        ({
            let next = agreement.after(caller, transition)->Ok_0;
            &&& next.status == AgreementStatus::Complete ==> transition == Transition::Accept
                && agreement.status == AgreementStatus::InReview
            &&& next.status == AgreementStatus::InReview ==> transition == Transition::SetReview
                && agreement.status == AgreementStatus::Signed
            &&& next.status == AgreementStatus::Signed ==> transition == Transition::Sign
                && agreement.status == AgreementStatus::NotSigned
            &&& next.contractor == agreement.contractor
            &&& next.hired == agreement.hired
            &&& next.value == agreement.value
            &&& next.info == agreement.info
        }),
{
}

/// Custody ends exactly where the value is handed out: a transition
/// releases the value if and only if it takes the agreement from under way
/// to a final status, the contractor is then credited with the whole value
/// and nobody else with anything, and every other transition leaves both
/// custody and balances as they were.
pub proof fn law_custody_is_released_once(
    agreement: Agreement,
    caller: AccountId,
    transition: Transition,
    balances: Map<AccountId, Balance>,
)
    requires
        agreement.after(caller, transition) is Ok,
    ensures
        ({
            let next = agreement.after(caller, transition)->Ok_0;
            let paid = settled(balances, next, transition);
            &&& agreement.custody() == agreement.value
            &&& transition.releases_value() <==> next.status.is_terminal()
            &&& transition.releases_value() ==> next.custody() == 0 && paid == credited(
                balances,
                agreement.contractor,
                agreement.value,
            )
            &&& !transition.releases_value() ==> next.custody() == agreement.custody() && paid
                == balances
            &&& forall|who: AccountId|
                who != agreement.contractor && balances.contains_key(who) ==> paid[who]
                    == balances[who]
        }),
{
}

/// The contractor cannot accept an agreement that is unsigned or merely
/// signed: the attempt fails with `AgreementNotInReview`.
pub proof fn law_accept_needs_review(agreement: Agreement)
    requires
        agreement.status == AgreementStatus::NotSigned || agreement.status
            == AgreementStatus::Signed,
    ensures
        agreement.after(agreement.contractor, Transition::Accept) == Err::<Agreement, Error>(
            Error::AgreementNotInReview,
        ),
{
}

/// Where the list of one of the two parties is full and nothing else
/// stands against the creation, it fails with `StorageOverflow`.
pub proof fn law_full_list_refuses(
    state: State,
    balances: Map<AccountId, Balance>,
    minimum: Balance,
    limit: u32,
    id: Hash256,
    caller: AccountId,
    hired: AccountId,
    value: Balance,
)
    requires
        state.user_agreements[caller].len() >= limit || state.user_agreements[hired].len()
            >= limit,
        validation_error(caller, hired, value, balances[caller]) is None,
        withdraw_error(balances, minimum, caller, value, ExistenceRequirement::KeepAlive) is None,
        !state.agreements.contains_key(id),
    ensures
        state.create_error(balances, minimum, limit, id, caller, hired, value) == Some(
            DispatchError::Module(Error::StorageOverflow),
        ),
{
}

/// Whatever the status of an agreement: a cancel by anyone but the
/// contractor fails with `NotAllowed`, and so does a signature by anyone
/// but the hired party.
pub proof fn law_wrong_party_is_refused(state: State, id: Hash256, caller: AccountId)
    requires
        state.agreements.contains_key(id),
    ensures
        caller != state.agreements[id].contractor ==> state.step(caller, id, Transition::Cancel)
            == Err::<Agreement, Error>(Error::NotAllowed),
        caller != state.agreements[id].hired ==> state.step(caller, id, Transition::Sign) == Err::<
            Agreement,
            Error,
        >(Error::NotAllowed),
{
}

/// Index and store agree where there is no agreement.
pub proof fn law_empty_is_indexed()
    ensures
        State::empty().indexed(),
{
}

/// A transition keeps index and store in agreement.
pub proof fn law_step_keeps_indexed(
    state: State,
    id: Hash256,
    caller: AccountId,
    transition: Transition,
)
    requires
        state.indexed(),
        state.step(caller, id, transition) is Ok,
    ensures
        state.stepped(id, state.step(caller, id, transition)->Ok_0).indexed(),
{
    let next = state.step(caller, id, transition)->Ok_0;
    let after = state.stepped(id, next);
    assert forall|other: Hash256| #[trigger] after.agreements.contains_key(other) implies {
        &&& occurs_once(after.user_agreements[after.agreements[other].contractor], other)
        &&& occurs_once(after.user_agreements[after.agreements[other].hired], other)
    } by {
        assert(state.agreements.contains_key(other));
    }
    assert forall|who: AccountId, i: int| 0 <= i < after.user_agreements[who].len() implies {
        &&& after.agreements.contains_key(#[trigger] after.user_agreements[who][i])
        &&& after.agreements[after.user_agreements[who][i]].contractor == who
            || after.agreements[after.user_agreements[who][i]].hired == who
    } by {
        assert(state.agreements.contains_key(state.user_agreements[who][i]));
    }
}

/// A successful creation keeps index and store in agreement.
pub proof fn law_create_keeps_indexed(
    state: State,
    balances: Map<AccountId, Balance>,
    minimum: Balance,
    limit: u32,
    id: Hash256,
    caller: AccountId,
    hired: AccountId,
    value: Balance,
    info: Hash256,
)
    requires
        state.indexed(),
        state.create_error(balances, minimum, limit, id, caller, hired, value) is None,
    ensures
        state.created(id, Agreement::fresh(caller, hired, value, info)).indexed(),
{
    let record = Agreement::fresh(caller, hired, value, info);
    let after = state.created(id, record);
    assert(caller != hired);
    assert(!state.agreements.contains_key(id));
    assert forall|who: AccountId, i: int| 0 <= i < state.user_agreements[who].len() implies (
    #[trigger] state.user_agreements[who][i]) != id by {
        assert(state.agreements.contains_key(state.user_agreements[who][i]));
    }
    assert forall|who: AccountId, i: int| 0 <= i < after.user_agreements[who].len() implies {
        &&& after.agreements.contains_key(#[trigger] after.user_agreements[who][i])
        &&& after.agreements[after.user_agreements[who][i]].contractor == who
            || after.agreements[after.user_agreements[who][i]].hired == who
    } by {
        if i < state.user_agreements[who].len() {
            assert(after.user_agreements[who][i] == state.user_agreements[who][i]);
            assert(state.agreements.contains_key(state.user_agreements[who][i]));
        }
    }
    assert forall|other: Hash256| #[trigger] after.agreements.contains_key(other) implies {
        &&& occurs_once(after.user_agreements[after.agreements[other].contractor], other)
        &&& occurs_once(after.user_agreements[after.agreements[other].hired], other)
    } by {
        if other == id {
            lemma_pushed_occurs_once(state.user_agreements[caller], id);
            lemma_pushed_occurs_once(state.user_agreements[hired], id);
        } else {
            assert(state.agreements.contains_key(other));
            let old_record = state.agreements[other];
            lemma_push_keeps_occurrence(state.user_agreements[old_record.contractor], other, id);
            lemma_push_keeps_occurrence(state.user_agreements[old_record.hired], other, id);
        }
    }
}

/// An identity that a list does not hold stands exactly once in the list
/// after it was appended.
proof fn lemma_pushed_occurs_once(list: Seq<Hash256>, id: Hash256)
    requires
        forall|i: int| 0 <= i < list.len() ==> #[trigger] list[i] != id,
    ensures
        occurs_once(list.push(id), id),
{
    let pushed = list.push(id);
    let last = list.len() as int;
    assert(pushed[last] == id);
    assert forall|j: int| 0 <= j < pushed.len() && #[trigger] pushed[j] == id implies j == last by {
        if j < last {
            assert(pushed[j] == list[j]);
        }
    }
}

/// Appending another identity does not change that `id` stands exactly
/// once in a list.
proof fn lemma_push_keeps_occurrence(list: Seq<Hash256>, id: Hash256, appended: Hash256)
    requires
        occurs_once(list, id),
        appended != id,
    ensures
        occurs_once(list.push(appended), id),
{
    let pushed = list.push(appended);
    let i = choose|i: int|
        0 <= i < list.len() && #[trigger] list[i] == id && forall|j: int|
            0 <= j < list.len() && #[trigger] list[j] == id ==> j == i;
    assert(pushed[i] == id);
    assert forall|j: int| 0 <= j < pushed.len() && #[trigger] pushed[j] == id implies j == i by {
        if j < list.len() {
            assert(pushed[j] == list[j]);
        }
    }
}

} // verus!
