//! The balance ledger that custody is taken from and released to.
//!
//! Every account has a free balance; an account that never received
//! anything holds zero. A withdrawal can be asked to keep the account
//! alive, that is, to leave at least the ledger's minimum balance behind.

use crate::primitives::{AccountId, Balance};
use std::collections::HashMap;
use vstd::prelude::*;

verus! {

broadcast use vstd::std_specs::hash::group_hash_axioms;

/// What a withdrawal may do to the account it takes from.
#[derive(Clone, Copy, PartialEq, Eq, Debug, Structural)]
pub enum ExistenceRequirement {
    /// The account must keep at least the minimum balance.
    KeepAlive,
    /// The account may be drained below the minimum balance.
    AllowDeath,
}

/// Why the ledger refused an operation.
#[derive(Clone, Copy, PartialEq, Eq, Debug, Structural)]
pub enum CurrencyError {
    /// The account holds less than the amount asked for.
    InsufficientBalance,
    /// The withdrawal would leave less than the minimum balance.
    KeepAlive,
    /// The account holds nothing, so there is no balance to add to.
    DeadAccount,
}

/// The sum of two balances, stopping at the largest balance.
pub open spec fn saturating_sum(a: Balance, b: Balance) -> Balance {
    if a + b > Balance::MAX {
        Balance::MAX
    } else {
        (a + b) as Balance
    }
}

/// The balances after `amount` was taken from `who`.
pub open spec fn withdrawn(balances: Map<AccountId, Balance>, who: AccountId, amount: Balance) -> Map<
    AccountId,
    Balance,
> {
    balances.insert(who, (balances[who] - amount) as Balance)
}

/// The balances after `amount` was added to what `who` holds.
pub open spec fn credited(balances: Map<AccountId, Balance>, who: AccountId, amount: Balance) -> Map<
    AccountId,
    Balance,
> {
    balances.insert(who, saturating_sum(balances[who], amount))
}

/// The reason for which a withdrawal of `amount` from `who` is refused, if
/// it is refused.
pub open spec fn withdraw_error(
    balances: Map<AccountId, Balance>,
    minimum: Balance,
    who: AccountId,
    amount: Balance,
    requirement: ExistenceRequirement,
) -> Option<CurrencyError> {
    if amount > balances[who] {
        Some(CurrencyError::InsufficientBalance)
    } else if requirement == ExistenceRequirement::KeepAlive && balances[who] - amount < minimum {
        Some(CurrencyError::KeepAlive)
    } else {
        None
    }
}

/// An in-memory balance ledger.
pub struct Currency {
    balances: HashMap<AccountId, Balance>,
    minimum_balance: Balance,
}

impl View for Currency {
    type V = Map<AccountId, Balance>;

    /// The free balance of every account.
    closed spec fn view(&self) -> Map<AccountId, Balance> {
        Map::total(
            |who: AccountId|
                if self.balances@.contains_key(who) {
                    self.balances@[who]
                } else {
                    0
                },
        )
    }
}

impl Currency {
    /// The least balance that a keep-alive withdrawal leaves behind.
    pub closed spec fn minimum(&self) -> Balance {
        self.minimum_balance
    }

    /// Every account has a balance.
    pub proof fn lemma_total(&self)
        ensures
            self@.dom() == Set::<AccountId>::full(),
    {
        assert(self@.dom() =~= Set::<AccountId>::full());
    }

    /// A ledger in which no account holds anything.
    pub fn new(minimum_balance: Balance) -> (currency: Currency)
        ensures
            currency@ == Map::<AccountId, Balance>::total(|who: AccountId| 0),
            currency.minimum() == minimum_balance,
    {
        let currency = Currency { balances: HashMap::new(), minimum_balance };
        assert(currency@ =~= Map::<AccountId, Balance>::total(|who: AccountId| 0));
        currency
    }

    /// The least balance that a keep-alive withdrawal leaves behind.
    pub fn minimum_balance(&self) -> (minimum: Balance)
        ensures
            minimum == self.minimum(),
    {
        self.minimum_balance
    }

    /// What `who` holds.
    pub fn free_balance(&self, who: AccountId) -> (balance: Balance)
        ensures
            balance == self@[who],
    {
        match self.balances.get(&who) {
            Some(balance) => *balance,
            None => 0,
        }
    }

    /// Says whether a withdrawal would go through, without making it.
    pub fn ensure_can_withdraw(
        &self,
        who: AccountId,
        amount: Balance,
        requirement: ExistenceRequirement,
    ) -> (result: Result<(), CurrencyError>)
        ensures
            result == match withdraw_error(self@, self.minimum(), who, amount, requirement) {
                Some(error) => Err::<(), CurrencyError>(error),
                None => Ok(()),
            },
    {
        let free = self.free_balance(who);
        if amount > free {
            Err(CurrencyError::InsufficientBalance)
        } else if requirement == ExistenceRequirement::KeepAlive && free - amount
            < self.minimum_balance {
            Err(CurrencyError::KeepAlive)
        } else {
            Ok(())
        }
    }

    /// Takes `amount` from `who`, or refuses and changes nothing.
    pub fn withdraw(
        &mut self,
        who: AccountId,
        amount: Balance,
        requirement: ExistenceRequirement,
    ) -> (result: Result<(), CurrencyError>)
        ensures
            final(self).minimum() == old(self).minimum(),
            match withdraw_error(old(self)@, old(self).minimum(), who, amount, requirement) {
                Some(error) => result == Err::<(), CurrencyError>(error) && final(self)@ == old(
                    self,
                )@,
                None => result == Ok::<(), CurrencyError>(()) && final(self)@ == withdrawn(
                    old(self)@,
                    who,
                    amount,
                ),
            },
    {
        match self.ensure_can_withdraw(who, amount, requirement) {
            Err(error) => Err(error),
            Ok(()) => {
                let free = self.free_balance(who);
                self.balances.insert(who, free - amount);
                assert(self@ =~= withdrawn(old(self)@, who, amount));
                Ok(())
            },
        }
    }

    /// Adds `amount` to what `who` holds, provided `who` holds something
    /// already. The sum stops at the largest balance.
    pub fn deposit_into_existing(&mut self, who: AccountId, amount: Balance) -> (result: Result<
        (),
        CurrencyError,
    >)
        ensures
            final(self).minimum() == old(self).minimum(),
            old(self)@[who] == 0 ==> result == Err::<(), CurrencyError>(CurrencyError::DeadAccount)
                && final(self)@ == old(self)@,
            old(self)@[who] != 0 ==> result == Ok::<(), CurrencyError>(()) && final(self)@
                == credited(old(self)@, who, amount),
    {
        if self.free_balance(who) == 0 {
            Err(CurrencyError::DeadAccount)
        } else {
            self.deposit_creating(who, amount);
            Ok(())
        }
    }

    /// Adds `amount` to what `who` holds, whether or not `who` held
    /// anything before, and returns what was added. The sum stops at the
    /// largest balance.
    pub fn deposit_creating(&mut self, who: AccountId, amount: Balance) -> (added: Balance)
        ensures
            final(self).minimum() == old(self).minimum(),
            final(self)@ == credited(old(self)@, who, amount),
            added == final(self)@[who] - old(self)@[who],
    {
        let free = self.free_balance(who);
        let total = free.saturating_add(amount);
        self.balances.insert(who, total);
        assert(self@ =~= credited(old(self)@, who, amount));
        total - free
    }
}

} // verus!
