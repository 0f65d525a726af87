//! The agreement record and the rules by which its status changes.

use crate::primitives::{AccountId, Balance, Hash256};
use crate::currency::CurrencyError;
use vstd::prelude::*;

verus! {

/// Where an agreement stands in its life. `Canceled` and `Complete` are
/// final: nothing leads out of them.
#[derive(Clone, Copy, PartialEq, Eq, Debug, Structural)]
pub enum AgreementStatus {
    NotSigned,
    Canceled,
    Signed,
    InReview,
    Complete,
}

/// An agreement between the contractor, who funds it, and the hired party,
/// who works for it.
#[derive(Clone, Copy, PartialEq, Eq, Debug)]
pub struct Agreement {
    /// The account that created and funded the agreement.
    pub contractor: AccountId,
    /// The counterparty.
    pub hired: AccountId,
    /// The amount held in custody for the agreement.
    pub value: Balance,
    /// A reference to the terms, which are kept elsewhere.
    pub info: Hash256,
    /// Where the agreement stands.
    pub status: AgreementStatus,
}

/// Why an operation on agreements was refused.
#[derive(Clone, Copy, PartialEq, Eq, Debug, Structural)]
pub enum Error {
    NoneValue,
    /// An account's list of agreements is full.
    StorageOverflow,
    /// The caller does not hold more than the agreement's value.
    NotEnoughBalance,
    /// An agreement needs a value above zero.
    ZeroValueNotAllowed,
    /// Contractor and hired party must differ.
    EqualsAccountsNotAllowed,
    /// No agreement has this identity.
    NotFound,
    /// The caller is not the party that may do this.
    NotAllowed,
    /// The agreement is no longer unsigned.
    AgreementAlreadySigned,
    /// An agreement with this identity exists already.
    AlreadyExist,
    /// The agreement is not in the signed state.
    AgreementNotSigned,
    /// The agreement is not in review.
    AgreementNotInReview,
}

/// Why a call failed: by the rules of agreements, or in the ledger.
#[derive(Clone, Copy, PartialEq, Eq, Debug, Structural)]
pub enum DispatchError {
    Module(Error),
    Currency(CurrencyError),
}

/// What an operation tells the outside world.
#[derive(Clone, Copy, PartialEq, Eq, Debug)]
pub enum Event {
    /// An agreement was created: by whom, and its identity.
    AgreementCreated(AccountId, Hash256),
    /// The agreement with this identity was canceled.
    AgreementCanceled(Hash256),
}

/// The changes of status that a party can ask for.
#[derive(Clone, Copy, PartialEq, Eq, Debug, Structural)]
pub enum Transition {
    Cancel,
    Sign,
    Unsign,
    SetReview,
    Accept,
}

impl AgreementStatus {
    /// The number that stands for the status where a record is hashed.
    pub open spec fn index_spec(self) -> u8 {
        match self {
            AgreementStatus::NotSigned => 0,
            AgreementStatus::Canceled => 1,
            AgreementStatus::Signed => 2,
            AgreementStatus::InReview => 3,
            AgreementStatus::Complete => 4,
        }
    }

    /// The number that stands for the status where a record is hashed.
    #[verifier::when_used_as_spec(index_spec)]
    pub fn index(self) -> (index: u8)
        ensures
            index == self.index_spec(),
    {
        match self {
            AgreementStatus::NotSigned => 0,
            AgreementStatus::Canceled => 1,
            AgreementStatus::Signed => 2,
            AgreementStatus::InReview => 3,
            AgreementStatus::Complete => 4,
        }
    }

    /// Whether nothing leads out of this status.
    pub open spec fn is_terminal(self) -> bool {
        self == AgreementStatus::Canceled || self == AgreementStatus::Complete
    }
}

impl Transition {
    /// The status that the agreement must have for the transition.
    pub open spec fn source(self) -> AgreementStatus {
        match self {
            Transition::Cancel => AgreementStatus::NotSigned,
            Transition::Sign => AgreementStatus::NotSigned,
            Transition::Unsign => AgreementStatus::Signed,
            Transition::SetReview => AgreementStatus::Signed,
            Transition::Accept => AgreementStatus::InReview,
        }
    }

    /// The status that the transition leads to.
    pub open spec fn target(self) -> AgreementStatus {
        match self {
            Transition::Cancel => AgreementStatus::Canceled,
            Transition::Sign => AgreementStatus::Signed,
            Transition::Unsign => AgreementStatus::NotSigned,
            Transition::SetReview => AgreementStatus::InReview,
            Transition::Accept => AgreementStatus::Complete,
        }
    }

    /// The error for an agreement that is not in the source status.
    pub open spec fn wrong_status(self) -> Error {
        match self {
            Transition::Cancel => Error::AgreementAlreadySigned,
            Transition::Sign => Error::AgreementAlreadySigned,
            Transition::Unsign => Error::AgreementNotSigned,
            Transition::SetReview => Error::AgreementNotSigned,
            Transition::Accept => Error::AgreementNotInReview,
        }
    }

    /// Whether the contractor, and not the hired party, makes the
    /// transition.
    pub open spec fn by_contractor(self) -> bool {
        self == Transition::Cancel || self == Transition::Accept
    }

    /// Whether the transition hands the custodied value out.
    pub open spec fn releases_value(self) -> bool {
        self == Transition::Cancel || self == Transition::Accept
    }
}

/// The first reason for which a new agreement is refused before anything
/// is looked up: equal parties, no value, or a caller whose free balance
/// does not exceed the value.
pub open spec fn validation_error(
    caller: AccountId,
    hired: AccountId,
    value: Balance,
    free_balance: Balance,
) -> Option<Error> {
    if caller == hired {
        Some(Error::EqualsAccountsNotAllowed)
    } else if value == 0 {
        Some(Error::ZeroValueNotAllowed)
    } else if free_balance <= value {
        Some(Error::NotEnoughBalance)
    } else {
        None
    }
}

/// Checks the parties and the value of an agreement that is about to be
/// created, against the caller's free balance.
pub fn validate(caller: AccountId, hired: AccountId, value: Balance, free_balance: Balance) -> (result:
    Result<(), Error>)
    ensures
        result == match validation_error(caller, hired, value, free_balance) {
            Some(error) => Err::<(), Error>(error),
            None => Ok(()),
        },
{
    if caller == hired {
        Err(Error::EqualsAccountsNotAllowed)
    } else if value == 0 {
        Err(Error::ZeroValueNotAllowed)
    } else if free_balance <= value {
        Err(Error::NotEnoughBalance)
    } else {
        Ok(())
    }
}

impl Agreement {
    /// The party that may make the transition.
    pub open spec fn actor(self, transition: Transition) -> AccountId {
        if transition.by_contractor() {
            self.contractor
        } else {
            self.hired
        }
    }

    /// What is held in custody for the agreement: its value while it is
    /// under way, nothing once it is canceled or complete.
    pub open spec fn custody(self) -> Balance {
        if self.status.is_terminal() {
            0
        } else {
            self.value
        }
    }

    /// The agreement with another status.
    pub open spec fn with_status(self, status: AgreementStatus) -> Agreement {
        Agreement { status, ..self }
    }

    /// What a transition asked for by `caller` gives: the agreement in its
    /// new status, `NotAllowed` for the wrong caller, or the transition's
    /// error for the wrong status. The caller is checked first.
    pub open spec fn after(self, caller: AccountId, transition: Transition) -> Result<
        Agreement,
        Error,
    > {
        if caller != self.actor(transition) {
            Err(Error::NotAllowed)
        } else if self.status != transition.source() {
            Err(transition.wrong_status())
        } else {
            Ok(self.with_status(transition.target()))
        }
    }

    /// The record of an agreement that was just created.
    pub open spec fn fresh(
        contractor: AccountId,
        hired: AccountId,
        value: Balance,
        info: Hash256,
    ) -> Agreement {
        Agreement { contractor, hired, value, info, status: AgreementStatus::NotSigned }
    }

    /// A fresh, unsigned agreement.
    pub fn new(contractor: AccountId, hired: AccountId, value: Balance, info: Hash256) -> (agreement:
        Agreement)
        ensures
            agreement == Agreement::fresh(contractor, hired, value, info),
    {
        Agreement { contractor, hired, value, info, status: AgreementStatus::NotSigned }
    }

    /// Makes the transition that `caller` asks for, if the rules allow it.
    pub fn apply(&self, caller: AccountId, transition: Transition) -> (result: Result<
        Agreement,
        Error,
    >)
        ensures
            result == self.after(caller, transition),
    {
        let (actor, source, target, wrong_status) = match transition {
            Transition::Cancel => (
                self.contractor,
                AgreementStatus::NotSigned,
                AgreementStatus::Canceled,
                Error::AgreementAlreadySigned,
            ),
            Transition::Sign => (
                self.hired,
                AgreementStatus::NotSigned,
                AgreementStatus::Signed,
                Error::AgreementAlreadySigned,
            ),
            Transition::Unsign => (
                self.hired,
                AgreementStatus::Signed,
                AgreementStatus::NotSigned,
                Error::AgreementNotSigned,
            ),
            Transition::SetReview => (
                self.hired,
                AgreementStatus::Signed,
                AgreementStatus::InReview,
                Error::AgreementNotSigned,
            ),
            Transition::Accept => (
                self.contractor,
                AgreementStatus::InReview,
                AgreementStatus::Complete,
                Error::AgreementNotInReview,
            ),
        };
        if caller != actor {
            Err(Error::NotAllowed)
        } else if self.status != source {
            Err(wrong_status)
        } else {
            Ok(
                Agreement {
                    contractor: self.contractor,
                    hired: self.hired,
                    value: self.value,
                    info: self.info,
                    status: target,
                },
            )
        }
    }
}

} // verus!
