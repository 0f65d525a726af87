//! The six operations on agreements. Each one either goes through as a
//! whole or fails and leaves the agreements and the ledger as they were.

use crate::agreements::hashing::{agreement_id, id_of};
use crate::agreements::index::AgreementIndex;
use crate::agreements::laws::{
    law_create_keeps_indexed, law_empty_is_indexed, law_step_keeps_indexed,
};
use crate::agreements::record::{
    validate, validation_error, Agreement, DispatchError, Error, Event, Transition,
};
use crate::agreements::store::AgreementStore;
use crate::currency::{credited, withdraw_error, withdrawn, Currency, ExistenceRequirement};
use crate::primitives::{AccountId, Balance, BlockNumber, Hash256};
use vstd::prelude::*;

verus! {

/// What the agreements pallet holds, as mathematics.
pub struct State {
    /// The record of each agreement, under its identity.
    pub agreements: Map<Hash256, Agreement>,
    /// For every account the identities of the agreements that name it,
    /// oldest first; empty for an account that no agreement names.
    pub user_agreements: Map<AccountId, Seq<Hash256>>,
}

/// `id` stands in `list` at one place and no other.
pub open spec fn occurs_once(list: Seq<Hash256>, id: Hash256) -> bool {
    exists|i: int|
        0 <= i < list.len() && #[trigger] list[i] == id && forall|j: int|
            0 <= j < list.len() && #[trigger] list[j] == id ==> j == i
}

impl State {
    /// Index and store agree: the identity of every agreement stands
    /// exactly once in the list of its contractor and exactly once in the
    /// list of its hired party, and a list holds nothing but identities of
    /// agreements that name its account.
    pub open spec fn indexed(self) -> bool {
        &&& forall|id: Hash256| #[trigger]
            self.agreements.contains_key(id) ==> {
                &&& occurs_once(self.user_agreements[self.agreements[id].contractor], id)
                &&& occurs_once(self.user_agreements[self.agreements[id].hired], id)
            }
        &&& forall|who: AccountId, i: int|
            0 <= i < self.user_agreements[who].len() ==> {
                &&& self.agreements.contains_key(#[trigger] self.user_agreements[who][i])
                &&& self.agreements[self.user_agreements[who][i]].contractor == who
                    || self.agreements[self.user_agreements[who][i]].hired == who
            }
    }

    /// The state without agreements.
    pub open spec fn empty() -> State {
        State {
            agreements: Map::empty(),
            user_agreements: Map::total(|who: AccountId| Seq::empty()),
        }
    }

    /// The first reason for which the creation of an agreement under `id`
    /// is refused, if it is refused. The checks come in this order: the
    /// parties and the value, the caller's free balance, the withdrawal,
    /// the identity, the room in both parties' lists.
    pub open spec fn create_error(
        self,
        balances: Map<AccountId, Balance>,
        minimum: Balance,
        limit: u32,
        id: Hash256,
        caller: AccountId,
        hired: AccountId,
        value: Balance,
    ) -> Option<DispatchError> {
        if let Some(error) = validation_error(caller, hired, value, balances[caller]) {
            Some(DispatchError::Module(error))
        } else if let Some(error) = withdraw_error(
            balances,
            minimum,
            caller,
            value,
            ExistenceRequirement::KeepAlive,
        ) {
            Some(DispatchError::Currency(error))
        } else if self.agreements.contains_key(id) {
            Some(DispatchError::Module(Error::AlreadyExist))
        } else if self.user_agreements[caller].len() >= limit || self.user_agreements[hired].len()
            >= limit {
            Some(DispatchError::Module(Error::StorageOverflow))
        } else {
            None
        }
    }

    /// The state after `agreement` was stored under `id` and `id` was
    /// appended to the lists of both parties.
    pub open spec fn created(self, id: Hash256, agreement: Agreement) -> State {
        State {
            agreements: self.agreements.insert(id, agreement),
            user_agreements: self.user_agreements.insert(
                agreement.contractor,
                self.user_agreements[agreement.contractor].push(id),
            ).insert(agreement.hired, self.user_agreements[agreement.hired].push(id)),
        }
    }

    /// What `transition`, asked for by `caller` on the agreement under
    /// `id`, gives: the agreement in its new status, or the error.
    pub open spec fn step(self, caller: AccountId, id: Hash256, transition: Transition) -> Result<
        Agreement,
        Error,
    > {
        if self.agreements.contains_key(id) {
            self.agreements[id].after(caller, transition)
        } else {
            Err(Error::NotFound)
        }
    }

    /// The state in which `agreement` has taken the place of the record
    /// under `id`.
    pub open spec fn stepped(self, id: Hash256, agreement: Agreement) -> State {
        State { agreements: self.agreements.insert(id, agreement), ..self }
    }
}

/// The balances after `transition` was made on `agreement`: the value goes
/// to the contractor where the transition releases it, and nothing moves
/// otherwise.
pub open spec fn settled(
    balances: Map<AccountId, Balance>,
    agreement: Agreement,
    transition: Transition,
) -> Map<AccountId, Balance> {
    if transition.releases_value() {
        credited(balances, agreement.contractor, agreement.value)
    } else {
        balances
    }
}

/// The agreements and the index of each account's agreements, with at most
/// `MAX_AGREEMENTS_PER_ACCOUNT` agreements for an account.
pub struct Pallet<const MAX_AGREEMENTS_PER_ACCOUNT: u32> {
    agreements: AgreementStore,
    user_agreements: AgreementIndex<MAX_AGREEMENTS_PER_ACCOUNT>,
}

impl<const MAX_AGREEMENTS_PER_ACCOUNT: u32> View for Pallet<MAX_AGREEMENTS_PER_ACCOUNT> {
    type V = State;

    closed spec fn view(&self) -> State {
        State { agreements: self.agreements@, user_agreements: self.user_agreements@ }
    }
}

impl<const MAX_AGREEMENTS_PER_ACCOUNT: u32> Pallet<MAX_AGREEMENTS_PER_ACCOUNT> {
    /// Index and store agree at all times.
    #[verifier::type_invariant]
    spec fn well_formed(self) -> bool {
        self@.indexed()
    }

    /// A pallet without agreements.
    pub fn new() -> (pallet: Self)
        ensures
            pallet@ == State::empty(),
            pallet@.indexed(),
    {
        proof {
            law_empty_is_indexed();
        }
        Pallet { agreements: AgreementStore::new(), user_agreements: AgreementIndex::new() }
    }

    /// The record of the agreement under `id`, if there is one. Where
    /// there is one, `id` stands exactly once in the list of each of its
    /// two parties.
    pub fn agreements(&self, id: &Hash256) -> (found: Option<Agreement>)
        ensures
            found == if self@.agreements.contains_key(*id) {
                Some(self@.agreements[*id])
            } else {
                None
            },
            self@.indexed(),
    {
        proof {
            use_type_invariant(self);
        }
        self.agreements.get(id)
    }

    /// The identities of the agreements that name `who`, oldest first:
    /// never more than `MAX_AGREEMENTS_PER_ACCOUNT`, none of them twice,
    /// and each the identity of a stored agreement that names `who`.
    pub fn user_agreements(&self, who: AccountId) -> (ids: Vec<Hash256>)
        ensures
            ids@ == self@.user_agreements[who],
            ids@.len() <= MAX_AGREEMENTS_PER_ACCOUNT,
            self@.indexed(),
    {
        proof {
            use_type_invariant(self);
        }
        self.user_agreements.get(who)
    }

    /// A small unsigned number as a balance.
    pub fn u32_to_balance(input: u32) -> (balance: Balance)
        ensures
            balance == input,
    {
        crate::primitives::u32_to_balance(input)
    }

    /// Creates an agreement between `caller`, who funds it, and `hired`,
    /// in cycle `block_number`. The agreement's identity is derived from
    /// the new record and the cycle number. See [`Pallet::create_with_id`]
    /// for what is checked and what changes.
    pub fn create(
        &mut self,
        currency: &mut Currency,
        block_number: BlockNumber,
        caller: AccountId,
        hired: AccountId,
        value: Balance,
        info: Hash256,
    ) -> (result: Result<Event, DispatchError>)
        ensures
            final(self)@.indexed(),
            final(currency).minimum() == old(currency).minimum(),
            match old(self)@.create_error(
                old(currency)@,
                old(currency).minimum(),
                MAX_AGREEMENTS_PER_ACCOUNT,
                id_of(Agreement::fresh(caller, hired, value, info), block_number),
                caller,
                hired,
                value,
            ) {
                Some(error) => {
                    &&& result == Err::<Event, DispatchError>(error)
                    &&& final(self)@ == old(self)@
                    &&& final(currency)@ == old(currency)@
                },
                None => {
                    &&& result == Ok::<Event, DispatchError>(
                        Event::AgreementCreated(
                            caller,
                            id_of(Agreement::fresh(caller, hired, value, info), block_number),
                        ),
                    )
                    &&& final(self)@ == old(self)@.created(
                        id_of(Agreement::fresh(caller, hired, value, info), block_number),
                        Agreement::fresh(caller, hired, value, info),
                    )
                    &&& final(currency)@ == withdrawn(old(currency)@, caller, value)
                },
            },
    {
        let agreement = Agreement::new(caller, hired, value, info);
        let id = agreement_id(&agreement, block_number);
        self.create_with_id(currency, id, caller, hired, value, info)
    }

    /// Creates an agreement under the identity `id`.
    ///
    /// Refused, in this order: where `caller` and `hired` are one account;
    /// where `value` is zero; where the caller's free balance does not
    /// exceed `value`; where the ledger refuses to withdraw `value` and
    /// keep the caller alive; where `id` is taken; where the list of either
    /// party is full. A refusal changes nothing.
    ///
    /// Otherwise `value` leaves the caller's balance, the unsigned record
    /// is stored under `id`, and `id` is appended to both parties' lists.
    pub fn create_with_id(
        &mut self,
        currency: &mut Currency,
        id: Hash256,
        caller: AccountId,
        hired: AccountId,
        value: Balance,
        info: Hash256,
    ) -> (result: Result<Event, DispatchError>)
        ensures
            final(self)@.indexed(),
            final(currency).minimum() == old(currency).minimum(),
            match old(self)@.create_error(
                old(currency)@,
                old(currency).minimum(),
                MAX_AGREEMENTS_PER_ACCOUNT,
                id,
                caller,
                hired,
                value,
            ) {
                Some(error) => {
                    &&& result == Err::<Event, DispatchError>(error)
                    &&& final(self)@ == old(self)@
                    &&& final(currency)@ == old(currency)@
                },
                None => {
                    &&& result == Ok::<Event, DispatchError>(Event::AgreementCreated(caller, id))
                    &&& final(self)@ == old(self)@.created(
                        id,
                        Agreement::fresh(caller, hired, value, info),
                    )
                    &&& final(currency)@ == withdrawn(old(currency)@, caller, value)
                },
            },
    {
        proof {
            use_type_invariant(&*self);
        }
        if let Err(error) = validate(caller, hired, value, currency.free_balance(caller)) {
            return Err(DispatchError::Module(error));
        }
        if let Err(error) = currency.ensure_can_withdraw(
            caller,
            value,
            ExistenceRequirement::KeepAlive,
        ) {
            return Err(DispatchError::Currency(error));
        }
        if self.agreements.contains(&id) {
            return Err(DispatchError::Module(Error::AlreadyExist));
        }
        if self.user_agreements.is_full(caller) || self.user_agreements.is_full(hired) {
            return Err(DispatchError::Module(Error::StorageOverflow));
        }
        // Nothing stands against the creation: from here on every step goes
        // through.
        if let Err(error) = currency.withdraw(caller, value, ExistenceRequirement::KeepAlive) {
            return Err(DispatchError::Currency(error));
        }
        let mut taken = Pallet::new();
        std::mem::swap(self, &mut taken);
        let Pallet { mut agreements, mut user_agreements } = taken;
        agreements.insert(id, Agreement::new(caller, hired, value, info));
        if user_agreements.try_push(caller, id).is_err() || user_agreements.try_push(
            hired,
            id,
        ).is_err() {
            return Err(DispatchError::Module(Error::StorageOverflow));
        }
        proof {
            let after = State { agreements: agreements@, user_agreements: user_agreements@ };
            assert(after =~= old(self)@.created(
                id,
                Agreement::fresh(caller, hired, value, info),
            ));
            law_create_keeps_indexed(
                old(self)@,
                old(currency)@,
                old(currency).minimum(),
                MAX_AGREEMENTS_PER_ACCOUNT,
                id,
                caller,
                hired,
                value,
                info,
            );
        }
        *self = Pallet { agreements, user_agreements };
        Ok(Event::AgreementCreated(caller, id))
    }

    /// Makes `transition` on the agreement under `id`, if the rules allow
    /// it to `caller`, and returns the agreement in its new status.
    fn transit(&mut self, caller: AccountId, id: Hash256, transition: Transition) -> (result:
        Result<Agreement, Error>)
        ensures
            final(self)@.indexed(),
            result == old(self)@.step(caller, id, transition),
            match result {
                Ok(agreement) => final(self)@ == old(self)@.stepped(id, agreement),
                Err(_) => final(self)@ == old(self)@,
            },
    {
        proof {
            use_type_invariant(&*self);
        }
        let agreement = match self.agreements.get(&id) {
            Some(agreement) => agreement,
            None => {
                return Err(Error::NotFound);
            },
        };
        match agreement.apply(caller, transition) {
            Ok(updated) => {
                let mut taken = Pallet::new();
                std::mem::swap(self, &mut taken);
                let Pallet { mut agreements, user_agreements } = taken;
                agreements.insert(id, updated);
                proof {
                    law_step_keeps_indexed(old(self)@, id, caller, transition);
                }
                *self = Pallet { agreements, user_agreements };
                Ok(updated)
            },
            Err(error) => Err(error),
        }
    }

    /// The contractor takes back an agreement that nobody signed. The
    /// whole value returns to the contractor's balance, and the agreement
    /// is `Canceled` for good.
    pub fn cancel(&mut self, currency: &mut Currency, caller: AccountId, id: Hash256) -> (result:
        Result<Event, DispatchError>)
        ensures
            final(self)@.indexed(),
            final(currency).minimum() == old(currency).minimum(),
            match old(self)@.step(caller, id, Transition::Cancel) {
                Ok(agreement) => {
                    &&& result == Ok::<Event, DispatchError>(Event::AgreementCanceled(id))
                    &&& final(self)@ == old(self)@.stepped(id, agreement)
                    &&& final(currency)@ == settled(old(currency)@, agreement, Transition::Cancel)
                },
                Err(error) => {
                    &&& result == Err::<Event, DispatchError>(DispatchError::Module(error))
                    &&& final(self)@ == old(self)@
                    &&& final(currency)@ == old(currency)@
                },
            },
    {
        match self.transit(caller, id, Transition::Cancel) {
            Ok(agreement) => {
                currency.deposit_creating(agreement.contractor, agreement.value);
                Ok(Event::AgreementCanceled(id))
            },
            Err(error) => Err(DispatchError::Module(error)),
        }
    }

    /// The hired party signs an unsigned agreement. No value moves.
    pub fn sign(&mut self, caller: AccountId, id: Hash256) -> (result: Result<(), DispatchError>)
        ensures
            final(self)@.indexed(),
            match old(self)@.step(caller, id, Transition::Sign) {
                Ok(agreement) => {
                    &&& result == Ok::<(), DispatchError>(())
                    &&& final(self)@ == old(self)@.stepped(id, agreement)
                },
                Err(error) => {
                    &&& result == Err::<(), DispatchError>(DispatchError::Module(error))
                    &&& final(self)@ == old(self)@
                },
            },
    {
        match self.transit(caller, id, Transition::Sign) {
            Ok(_) => Ok(()),
            Err(error) => Err(DispatchError::Module(error)),
        }
    }

    /// The hired party takes a signature back. No value moves.
    pub fn unsign(&mut self, caller: AccountId, id: Hash256) -> (result: Result<(), DispatchError>)
        ensures
            final(self)@.indexed(),
            match old(self)@.step(caller, id, Transition::Unsign) {
                Ok(agreement) => {
                    &&& result == Ok::<(), DispatchError>(())
                    &&& final(self)@ == old(self)@.stepped(id, agreement)
                },
                Err(error) => {
                    &&& result == Err::<(), DispatchError>(DispatchError::Module(error))
                    &&& final(self)@ == old(self)@
                },
            },
    {
        match self.transit(caller, id, Transition::Unsign) {
            Ok(_) => Ok(()),
            Err(error) => Err(DispatchError::Module(error)),
        }
    }

    /// The hired party hands a signed agreement over for review. No value
    /// moves.
    pub fn set_review(&mut self, caller: AccountId, id: Hash256) -> (result: Result<
        (),
        DispatchError,
    >)
        ensures
            final(self)@.indexed(),
            match old(self)@.step(caller, id, Transition::SetReview) {
                Ok(agreement) => {
                    &&& result == Ok::<(), DispatchError>(())
                    &&& final(self)@ == old(self)@.stepped(id, agreement)
                },
                Err(error) => {
                    &&& result == Err::<(), DispatchError>(DispatchError::Module(error))
                    &&& final(self)@ == old(self)@
                },
            },
    {
        match self.transit(caller, id, Transition::SetReview) {
            Ok(_) => Ok(()),
            Err(error) => Err(DispatchError::Module(error)),
        }
    }

    /// The contractor accepts an agreement that is in review. The whole
    /// value is released to the contractor's balance, with no fee taken
    /// from it, and the agreement is `Complete` for good.
    pub fn accept(&mut self, currency: &mut Currency, caller: AccountId, id: Hash256) -> (result:
        Result<(), DispatchError>)
        ensures
            final(self)@.indexed(),
            final(currency).minimum() == old(currency).minimum(),
            match old(self)@.step(caller, id, Transition::Accept) {
                Ok(agreement) => {
                    &&& result == Ok::<(), DispatchError>(())
                    &&& final(self)@ == old(self)@.stepped(id, agreement)
                    &&& final(currency)@ == settled(old(currency)@, agreement, Transition::Accept)
                },
                Err(error) => {
                    &&& result == Err::<(), DispatchError>(DispatchError::Module(error))
                    &&& final(self)@ == old(self)@
                    &&& final(currency)@ == old(currency)@
                },
            },
    {
        match self.transit(caller, id, Transition::Accept) {
            Ok(agreement) => {
                currency.deposit_creating(agreement.contractor, agreement.value);
                Ok(())
            },
            Err(error) => Err(DispatchError::Module(error)),
        }
    }
}

} // verus!
