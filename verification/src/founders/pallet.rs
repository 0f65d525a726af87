//! The bucket, the tickets and the distribution at the end of a cycle.

use crate::assoc::{as_map, distinct, holds, lemma_append, lemma_lookup, lemma_replace};
use crate::currency::{credited, saturating_sum, Currency};
use crate::founders::payout::{accumulate, accumulated, payout, payout_of};
use crate::primitives::{AccountId, Balance, BlockNumber};
use vstd::prelude::*;

verus! {

/// The weight that the first founder gets at the start.
pub const FIRST_FOUNDER_WEIGHT: u128 = 100;

/// What the distribution tells the outside world.
#[derive(Clone, Copy, PartialEq, Eq, Debug)]
pub enum Event {
    /// A distribution took place: the bucket that was shared out, and the
    /// cycle that ended.
    DistributionPerformed(u128, BlockNumber),
}

/// The errors of the treasury.
#[derive(Clone, Copy, PartialEq, Eq, Debug, Structural)]
pub enum Error {
    NoneValue,
    StorageOverflow,
    NotEnoughBalance,
}

/// What the treasury holds, as mathematics.
pub struct State {
    /// What was collected since the last distribution.
    pub bucket: u128,
    /// The weight of each account that has a ticket, in points out of a
    /// hundred.
    pub tickets: Map<AccountId, u128>,
}

impl State {
    /// The weight of `who`: zero without a ticket.
    pub open spec fn weight(self, who: AccountId) -> u128 {
        if self.tickets.contains_key(who) {
            self.tickets[who]
        } else {
            0
        }
    }

    /// The balances after the bucket was shared out: every account has
    /// received the payout for its own weight, and nothing else.
    pub open spec fn distributed(self, balances: Map<AccountId, Balance>) -> Map<
        AccountId,
        Balance,
    > {
        Map::total(
            |who: AccountId| saturating_sum(balances[who], payout(self.weight(who), self.bucket)),
        )
    }
}

/// The treasury at the start: empty, or with all the weight on one
/// account.
pub struct GenesisConfig {
    pub first_founder: Option<AccountId>,
}

impl Default for GenesisConfig {
    /// No first founder.
    fn default() -> (config: GenesisConfig)
        ensures
            config.first_founder is None,
    {
        GenesisConfig { first_founder: None }
    }
}

impl GenesisConfig {
    /// The tickets that the treasury starts with.
    pub open spec fn tickets(self) -> Map<AccountId, u128> {
        match self.first_founder {
            Some(founder) => Map::empty().insert(founder, FIRST_FOUNDER_WEIGHT),
            None => Map::empty(),
        }
    }

    /// A treasury with an empty bucket, and with a ticket of a hundred
    /// points for the first founder if there is one.
    pub fn build(&self) -> (pallet: Pallet)
        ensures
            pallet@ == (State { bucket: 0, tickets: self.tickets() }),
    {
        let mut pallet = Pallet::new();
        match self.first_founder {
            Some(founder) => {
                pallet.insert_ticket(founder, FIRST_FOUNDER_WEIGHT);
            },
            None => {},
        }
        pallet
    }
}

/// The bucket and the tickets.
pub struct Pallet {
    bucket: u128,
    tickets: Vec<(AccountId, u128)>,
}

impl View for Pallet {
    type V = State;

    closed spec fn view(&self) -> State {
        State { bucket: self.bucket, tickets: as_map(self.tickets@) }
    }
}

/// The state in which only the first `count` tickets exist.
spec fn first_tickets(bucket: u128, tickets: Seq<(AccountId, u128)>, count: int) -> State {
    State { bucket, tickets: as_map(tickets.take(count)) }
}

/// With one more ticket taken into account, the balances are those before
/// with the payout of that ticket added to its account.
proof fn lemma_next_ticket(
    bucket: u128,
    tickets: Seq<(AccountId, u128)>,
    count: int,
    balances: Map<AccountId, Balance>,
)
    requires
        distinct(tickets),
        0 <= count < tickets.len(),
        balances.dom() == Set::<AccountId>::full(),
    ensures
        first_tickets(bucket, tickets, count + 1).distributed(balances) == credited(
            first_tickets(bucket, tickets, count).distributed(balances),
            tickets[count].0,
            payout(tickets[count].1, bucket),
        ),
{
    let before = tickets.take(count);
    let after = tickets.take(count + 1);
    let (who, weight) = tickets[count];
    assert(after =~= before.push((who, weight)));
    assert(distinct(before)) by {
        assert forall|i: int, j: int| 0 <= i < j < before.len() implies (#[trigger] before[i]).0
            != (#[trigger] before[j]).0 by {
            assert(before[i] == tickets[i] && before[j] == tickets[j]);
        }
    }
    assert(!holds(before, who)) by {
        if holds(before, who) {
            let i = choose|i: int| 0 <= i < before.len() && (#[trigger] before[i]).0 == who;
            assert(before[i] == tickets[i]);
            assert(tickets[i].0 != tickets[count].0);
        }
    }
    lemma_append(before, who, weight);
    let old_state = first_tickets(bucket, tickets, count);
    let new_state = first_tickets(bucket, tickets, count + 1);
    assert(new_state.tickets == old_state.tickets.insert(who, weight));
    assert(old_state.weight(who) == 0);
    assert(payout(0, bucket) == 0) by {
        assert(0 * bucket == 0) by (nonlinear_arith);
    }
    assert(new_state.distributed(balances) =~= credited(
        old_state.distributed(balances),
        who,
        payout(weight, bucket),
    ));
}

impl Pallet {
    #[verifier::type_invariant]
    spec fn well_formed(self) -> bool {
        distinct(self.tickets@)
    }

    /// A treasury with an empty bucket and no tickets.
    pub fn new() -> (pallet: Pallet)
        ensures
            pallet@ == (State { bucket: 0, tickets: Map::empty() }),
    {
        let pallet = Pallet { bucket: 0, tickets: Vec::new() };
        assert(pallet@.tickets =~= Map::<AccountId, u128>::empty());
        pallet
    }

    /// What was collected since the last distribution.
    pub fn bucket(&self) -> (bucket: u128)
        ensures
            bucket == self@.bucket,
    {
        self.bucket
    }

    /// The place of the ticket of `who`, if there is one.
    fn position(&self, who: AccountId) -> (place: Option<usize>)
        ensures
            match place {
                Some(k) => k < self.tickets@.len() && self.tickets@[k as int].0 == who,
                None => !holds(self.tickets@, who),
            },
    {
        let mut k: usize = 0;
        while k < self.tickets.len()
            invariant
                k <= self.tickets@.len(),
                forall|i: int| 0 <= i < k ==> (#[trigger] self.tickets@[i]).0 != who,
            decreases self.tickets@.len() - k,
        {
            if self.tickets[k].0 == who {
                return Some(k);
            }
            k += 1;
        }
        None
    }

    /// The weight of `who`: zero without a ticket.
    pub fn tickets(&self, who: AccountId) -> (weight: u128)
        ensures
            weight == self@.weight(who),
    {
        proof {
            use_type_invariant(self);
        }
        match self.position(who) {
            Some(k) => {
                proof {
                    lemma_lookup(self.tickets@, k as int);
                }
                self.tickets[k].1
            },
            None => 0,
        }
    }

    /// Gives `who` a ticket of `weight` points, in place of the ticket
    /// that `who` had before.
    pub fn insert_ticket(&mut self, who: AccountId, weight: u128)
        ensures
            final(self)@ == (State {
                bucket: old(self)@.bucket,
                tickets: old(self)@.tickets.insert(who, weight),
            }),
    {
        proof {
            use_type_invariant(&*self);
        }
        let place = self.position(who);
        let mut tickets = Vec::new();
        std::mem::swap(&mut tickets, &mut self.tickets);
        match place {
            Some(k) => {
                proof {
                    lemma_replace(tickets@, k as int, who, weight);
                }
                tickets.set(k, (who, weight));
            },
            None => {
                proof {
                    lemma_append(tickets@, who, weight);
                }
                tickets.push((who, weight));
            },
        }
        self.tickets = tickets;
    }

    /// A small unsigned number as a balance.
    pub fn u32_to_balance(input: u32) -> (balance: Balance)
        ensures
            balance == input,
    {
        crate::primitives::u32_to_balance(input)
    }

    /// A wide unsigned number as a balance: the largest balance where the
    /// number exceeds it.
    pub fn u128_to_balance(input: u128) -> (balance: Balance)
        ensures
            balance == crate::primitives::saturated_balance(input as int),
    {
        crate::primitives::u128_to_balance(input)
    }

    /// Adds `value` to the bucket, which stops at the largest number it can
    /// hold. Anyone may call this: who may pay in is for the caller to
    /// decide.
    pub fn add_to_bucket(&mut self, value: u128)
        ensures
            final(self)@.tickets == old(self)@.tickets,
            final(self)@.bucket == accumulated(old(self)@.bucket, value),
    {
        proof {
            use_type_invariant(&*self);
        }
        self.bucket = accumulate(self.bucket, value);
    }

    /// The end of cycle `n`. With an empty bucket nothing happens. With
    /// anything in it, every account receives the payout for its own
    /// weight out of the bucket as it stood at the start, the bucket is
    /// emptied, and the event carries what it held.
    pub fn on_finalize(&mut self, currency: &mut Currency, n: BlockNumber) -> (event: Option<Event>)
        ensures
            final(currency).minimum() == old(currency).minimum(),
            final(self)@.tickets == old(self)@.tickets,
            final(self)@.bucket == 0,
            old(self)@.bucket == 0 ==> event is None && final(currency)@ == old(currency)@,
            old(self)@.bucket != 0 ==> event == Some(
                Event::DistributionPerformed(old(self)@.bucket, n),
            ) && final(currency)@ == old(self)@.distributed(old(currency)@),
    {
        proof {
            use_type_invariant(&*self);
        }
        let bucket = self.bucket;
        if bucket == 0 {
            return None;
        }
        let ghost tickets = self.tickets@;
        let ghost before = currency@;
        proof {
            currency.lemma_total();
            assert(tickets.take(0) =~= Seq::<(AccountId, u128)>::empty());
            assert(as_map(tickets.take(0)) =~= Map::<AccountId, u128>::empty());
            assert(first_tickets(bucket, tickets, 0).distributed(before) =~= before) by {
                assert(payout(0, bucket) == 0) by {
                    assert(0 * bucket == 0) by (nonlinear_arith);
                }
            }
        }
        let mut i: usize = 0;
        while i < self.tickets.len()
            invariant
                i <= tickets.len(),
                self.tickets@ == tickets,
                self.bucket == bucket,
                distinct(tickets),
                before.dom() == Set::<AccountId>::full(),
                currency.minimum() == old(currency).minimum(),
                currency@ == first_tickets(bucket, tickets, i as int).distributed(before),
            decreases tickets.len() - i,
        {
            let (founder, weight) = self.tickets[i];
            proof {
                lemma_next_ticket(bucket, tickets, i as int, before);
            }
            currency.deposit_creating(founder, payout_of(weight, bucket));
            i += 1;
        }
        assert(tickets.take(tickets.len() as int) =~= tickets);
        self.bucket = 0;
        Some(Event::DistributionPerformed(bucket, n))
    }
}

} // verus!
