//! The agreement store: one record for each identity.

use crate::agreements::record::Agreement;
use crate::assoc::{as_map, distinct, holds, lemma_append, lemma_lookup, lemma_replace};
use crate::primitives::{hash_eq, Hash256};
use vstd::prelude::*;

verus! {

/// The records of all agreements, each under its identity. A record is
/// never taken out again: the end of an agreement's life is a status.
pub struct AgreementStore {
    entries: Vec<(Hash256, Agreement)>,
}

impl View for AgreementStore {
    type V = Map<Hash256, Agreement>;

    closed spec fn view(&self) -> Map<Hash256, Agreement> {
        as_map(self.entries@)
    }
}

impl AgreementStore {
    #[verifier::type_invariant]
    spec fn well_formed(self) -> bool {
        distinct(self.entries@)
    }

    /// A store without records.
    pub fn new() -> (store: AgreementStore)
        ensures
            store@ == Map::<Hash256, Agreement>::empty(),
    {
        let store = AgreementStore { entries: Vec::new() };
        assert(store@ =~= Map::<Hash256, Agreement>::empty());
        store
    }

    /// The place at which `id` stands, if it stands anywhere.
    fn position(&self, id: &Hash256) -> (place: Option<usize>)
        ensures
            match place {
                Some(k) => k < self.entries@.len() && self.entries@[k as int].0 == *id,
                None => !holds(self.entries@, *id),
            },
    {
        let mut k: usize = 0;
        while k < self.entries.len()
            invariant
                k <= self.entries@.len(),
                forall|i: int| 0 <= i < k ==> (#[trigger] self.entries@[i]).0 != *id,
            decreases self.entries@.len() - k,
        {
            if hash_eq(&self.entries[k].0, id) {
                return Some(k);
            }
            k += 1;
        }
        None
    }

    /// Whether a record stands under `id`.
    pub fn contains(&self, id: &Hash256) -> (found: bool)
        ensures
            found == self@.contains_key(*id),
    {
        self.position(id).is_some()
    }

    /// The record under `id`, if there is one.
    pub fn get(&self, id: &Hash256) -> (found: Option<Agreement>)
        ensures
            found == if self@.contains_key(*id) {
                Some(self@[*id])
            } else {
                None
            },
    {
        proof {
            use_type_invariant(self);
        }
        match self.position(id) {
            Some(k) => {
                proof {
                    lemma_lookup(self.entries@, k as int);
                }
                Some(self.entries[k].1)
            },
            None => None,
        }
    }

    /// Puts `agreement` under `id`, in place of the record that stood there
    /// if there was one.
    pub fn insert(&mut self, id: Hash256, agreement: Agreement)
        ensures
            final(self)@ == old(self)@.insert(id, agreement),
    {
        proof {
            use_type_invariant(&*self);
        }
        let place = self.position(&id);
        let mut entries = Vec::new();
        std::mem::swap(&mut entries, &mut self.entries);
        match place {
            Some(k) => {
                proof {
                    lemma_replace(entries@, k as int, id, agreement);
                }
                entries.set(k, (id, agreement));
            },
            None => {
                proof {
                    lemma_append(entries@, id, agreement);
                }
                entries.push((id, agreement));
            },
        }
        self.entries = entries;
    }
}

} // verus!
