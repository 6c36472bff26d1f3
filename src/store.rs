use std::collections::HashMap;
use vstd::prelude::*;
use vstd::std_specs::hash::obeys_key_model;
use crate::bytes::copy_range;

verus! {

broadcast use vstd::std_specs::hash::group_hash_axioms;

/// The process-wide mapping from a selection atom to the target atom and the
/// payload that the owner serves for it.
pub struct SelectionStore {
    entries: HashMap<u64, (u64, Vec<u8>)>,
}

impl View for SelectionStore {
    type V = Map<u64, (u64, Seq<u8>)>;

    closed spec fn view(&self) -> Map<u64, (u64, Seq<u8>)> {
        Map::new(
            |k: u64| self.entries@.contains_key(k),
            |k: u64| (self.entries@[k].0, self.entries@[k].1@),
        )
    }
}

impl SelectionStore {
    /// An empty store.
    pub fn new() -> (r: SelectionStore)
        ensures
            r@ == Map::<u64, (u64, Seq<u8>)>::empty(),
    {
        let r = SelectionStore { entries: HashMap::new() };
        assert(r@ =~= Map::<u64, (u64, Seq<u8>)>::empty());
        r
    }

    /// A copy of the target and payload stored for `selection`, if any.
    pub fn read(&self, selection: u64) -> (r: Option<(u64, Vec<u8>)>)
        ensures
            match r {
                Some((t, b)) => self@.contains_key(selection) && self@[selection] == (t, b@),
                None => !self@.contains_key(selection),
            },
    {
        match self.lookup(selection) {
            Some(entry) => {
                let b = copy_range(&entry.1, 0, entry.1.len());
                assert(entry.1@.subrange(0, entry.1@.len() as int) =~= entry.1@);
                Some((entry.0, b))
            },
            None => None,
        }
    }

    /// The stored entry for `selection`, borrowed.
    pub fn lookup(&self, selection: u64) -> (r: Option<&(u64, Vec<u8>)>)
        ensures
            match r {
                Some(e) => self@.contains_key(selection) && self@[selection] == (e.0, e.1@),
                None => !self@.contains_key(selection),
            },
    {
        assert(obeys_key_model::<u64>());
        self.entries.get(&selection)
    }

    /// Stores `(target, bytes)` for `selection`, replacing any earlier entry.
    pub fn write(&mut self, selection: u64, target: u64, bytes: Vec<u8>)
        ensures
            final(self)@ == old(self)@.insert(selection, (target, bytes@)),
    {
        assert(obeys_key_model::<u64>());
        self.entries.insert(selection, (target, bytes));
        assert(final(self)@ =~= old(self)@.insert(selection, (target, bytes@)));
    }

    /// Forgets the entry for `selection`.
    pub fn erase(&mut self, selection: u64)
        ensures
            final(self)@ == old(self)@.remove(selection),
    {
        assert(obeys_key_model::<u64>());
        self.entries.remove(&selection);
        assert(final(self)@ =~= old(self)@.remove(selection));
    }
}

} // verus!
