use std::collections::HashSet;

use vstd::prelude::*;

verus! {

/// Whether `id` occurs in `ids`, by a linear scan.
pub fn contains_id(ids: &Vec<u64>, id: u64) -> (found: bool)
    ensures
        found == ids@.contains(id),
{
    let mut i: usize = 0;
    while i < ids.len()
        invariant
            i <= ids@.len(),
            forall|k: int| 0 <= k < i ==> ids@[k] != id,
        decreases ids@.len() - i,
    {
        if ids[i] == id {
            return true;
        }
        i = i + 1;
    }
    false
}

/// The set of fires the player currently touches.
pub struct BurnContacts {
    ids: HashSet<u64>,
}

impl View for BurnContacts {
    type V = Set<u64>;

    closed spec fn view(&self) -> Set<u64> {
        self.ids@
    }
}

impl BurnContacts {
    /// No contacts.
    pub fn new() -> (c: BurnContacts)
        ensures
            c@ == Set::<u64>::empty(),
    {
        BurnContacts { ids: HashSet::new() }
    }

    /// Number of fires in contact.
    pub fn len(&self) -> (n: usize)
        ensures
            n == self@.len(),
    {
        broadcast use vstd::std_specs::hash::group_hash_axioms;
        self.ids.len()
    }

    /// Whether no fire is in contact.
    pub fn is_empty(&self) -> (b: bool)
        ensures
            b == (self@ == Set::<u64>::empty()),
    {
        let b = self.ids.is_empty();
        proof {
            if !b {
                let e = choose|e: u64| self@.contains(e);
                assert(self@.contains(e));
            } else {
                assert(self@ =~= Set::<u64>::empty());
            }
        }
        b
    }

    /// Whether `id` is in contact.
    pub fn contains(&self, id: u64) -> (b: bool)
        ensures
            b == self@.contains(id),
    {
        broadcast use vstd::std_specs::hash::group_hash_axioms;
        self.ids.contains(&id)
    }

    /// Records a contact with `id`.
    pub fn insert(&mut self, id: u64)
        ensures
            final(self)@ == old(self)@.insert(id),
    {
        broadcast use vstd::std_specs::hash::group_hash_axioms;
        self.ids.insert(id);
    }

    /// Forgets the contact with `id`.
    pub fn remove(&mut self, id: u64)
        ensures
            final(self)@ == old(self)@.remove(id),
    {
        broadcast use vstd::std_specs::hash::group_hash_axioms;
        self.ids.remove(&id);
    }

    /// Keeps only the contacts with entities listed in `live`.
    pub fn retain_live(&mut self, live: &Vec<u64>)
        ensures
            final(self)@ == old(self)@.intersect(live@.to_set()),
    {
        broadcast use vstd::std_specs::hash::group_hash_axioms;
        let mut kept: HashSet<u64> = HashSet::new();
        let mut i: usize = 0;
        while i < live.len()
            invariant
                i <= live@.len(),
                self@ == old(self)@,
                kept@ == old(self)@.intersect(live@.take(i as int).to_set()),
            decreases live@.len() - i,
        {
            let id = live[i];
            proof {
                assert(live@.take(i + 1) =~= live@.take(i as int).push(id));
                live@.take(i as int).lemma_push_to_set_commute(id);
            }
            if self.ids.contains(&id) {
                kept.insert(id);
            }
            assert(kept@ =~= old(self)@.intersect(live@.take(i + 1).to_set()));
            i = i + 1;
        }
        assert(live@.take(i as int) =~= live@);
        self.ids = kept;
    }

    /// Forgets all contacts.
    pub fn clear(&mut self)
        ensures
            final(self)@ == Set::<u64>::empty(),
    {
        self.ids.clear();
    }
}

/// Recording a contact with a fire not touched before and then forgetting
/// it leaves the contacts as they were; recording one twice is the same as
/// recording it once.
pub proof fn law_insert_then_remove(contacts: Set<u64>, id: u64)
    ensures
        !contacts.contains(id) ==> contacts.insert(id).remove(id) == contacts,
        contacts.insert(id).insert(id) == contacts.insert(id),
{
    assert(contacts.insert(id).insert(id) =~= contacts.insert(id));
    if !contacts.contains(id) {
        assert(contacts.insert(id).remove(id) =~= contacts);
    }
}

} // verus!
