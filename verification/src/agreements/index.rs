//! The agreement index: for each account, the identities of the agreements
//! that name it, in the order in which they were created, up to a limit.

use crate::primitives::{AccountId, Hash256};
use frame_support::{traits::ConstU32, BoundedVec};
use std::collections::HashMap;
use vstd::prelude::*;

verus! {

broadcast use vstd::std_specs::hash::group_hash_axioms;

/// Calls `BoundedVec::try_push` of `frame_support` on `items` under the
/// bound `MAX`, going through `BoundedVec::try_from` and
/// `BoundedVec::into_inner`. `try_from` takes a vector of at most `MAX`
/// items and hands a longer one back; `try_push` appends where the length
/// is below `MAX` and does nothing otherwise. So the contract claims: the
/// identity is appended exactly where `items` is shorter than `MAX`, and
/// the items come back unchanged where it is not.
#[verifier::external_body]
fn push_bounded<const MAX: u32>(items: Vec<Hash256>, id: Hash256) -> (out: (Vec<Hash256>, bool))
    ensures
        out.1 == (items@.len() < MAX),
        out.0@ == if out.1 {
            items@.push(id)
        } else {
            items@
        },
{
    match BoundedVec::<Hash256, ConstU32<MAX>>::try_from(items) {
        Ok(mut bounded) => {
            let pushed = bounded.try_push(id).is_ok();
            (bounded.into_inner(), pushed)
        },
        Err(items) => (items, false),
    }
}

/// For each account the identities of its agreements, at most `MAX` of
/// them.
pub struct AgreementIndex<const MAX: u32> {
    lists: HashMap<AccountId, Vec<Hash256>>,
}

impl<const MAX: u32> View for AgreementIndex<MAX> {
    type V = Map<AccountId, Seq<Hash256>>;

    /// The list of every account; empty for an account without agreements.
    closed spec fn view(&self) -> Map<AccountId, Seq<Hash256>> {
        Map::total(
            |who: AccountId|
                if self.lists@.contains_key(who) {
                    self.lists@[who]@
                } else {
                    Seq::empty()
                },
        )
    }
}

impl<const MAX: u32> AgreementIndex<MAX> {
    #[verifier::type_invariant]
    spec fn bounded(self) -> bool {
        forall|who: AccountId|
            self.lists@.contains_key(who) ==> (#[trigger] self.lists@[who])@.len() <= MAX
    }

    /// An index in which no account has an agreement.
    pub fn new() -> (index: Self)
        ensures
            index@ == Map::<AccountId, Seq<Hash256>>::total(|who: AccountId| Seq::empty()),
    {
        let index = AgreementIndex { lists: HashMap::new() };
        assert(index@ =~= Map::<AccountId, Seq<Hash256>>::total(|who: AccountId| Seq::empty()));
        index
    }

    /// How many agreements name `who`: never more than `MAX`.
    pub fn len(&self, who: AccountId) -> (count: usize)
        ensures
            count == self@[who].len(),
            count <= MAX,
    {
        proof {
            use_type_invariant(self);
        }
        match self.lists.get(&who) {
            Some(list) => list.len(),
            None => 0,
        }
    }

    /// Whether the list of `who` has reached the limit.
    pub fn is_full(&self, who: AccountId) -> (full: bool)
        ensures
            full == (self@[who].len() >= MAX),
    {
        self.len(who) >= MAX as usize
    }

    /// The identities of the agreements that name `who`, oldest first:
    /// never more than `MAX`.
    pub fn get(&self, who: AccountId) -> (ids: Vec<Hash256>)
        ensures
            ids@ == self@[who],
            ids@.len() <= MAX,
    {
        proof {
            use_type_invariant(self);
        }
        let mut ids: Vec<Hash256> = Vec::new();
        match self.lists.get(&who) {
            Some(list) => {
                let mut i: usize = 0;
                while i < list.len()
                    invariant
                        i <= list@.len(),
                        ids@ == list@.take(i as int),
                    decreases list@.len() - i,
                {
                    ids.push(list[i]);
                    assert(list@.take(i + 1) =~= list@.take(i as int).push(list@[i as int]));
                    i += 1;
                }
                assert(list@.take(list@.len() as int) =~= list@);
            },
            None => {},
        }
        ids
    }

    /// Appends `id` to the list of `who`, or hands it back where the list
    /// is full. Nothing changes for any other account.
    pub fn try_push(&mut self, who: AccountId, id: Hash256) -> (result: Result<(), Hash256>)
        ensures
            old(self)@[who].len() < MAX ==> result == Ok::<(), Hash256>(()) && final(self)@ == old(
                self,
            )@.insert(who, old(self)@[who].push(id)),
            old(self)@[who].len() >= MAX ==> result == Err::<(), Hash256>(id) && final(self)@
                == old(self)@,
    {
        proof {
            use_type_invariant(&*self);
        }
        let mut lists = HashMap::new();
        std::mem::swap(&mut lists, &mut self.lists);
        let items = match lists.remove(&who) {
            Some(list) => list,
            None => Vec::new(),
        };
        let (items, pushed) = push_bounded::<MAX>(items, id);
        lists.insert(who, items);
        self.lists = lists;
        if pushed {
            assert(self@ =~= old(self)@.insert(who, old(self)@[who].push(id)));
            Ok(())
        } else {
            assert(self@ =~= old(self)@);
            Err(id)
        }
    }
}

} // verus!
