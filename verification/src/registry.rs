//! The set of surfaces enrolled for synthetic pointer forwarding.

use std::collections::HashSet;
use vstd::prelude::*;
use vstd::std_specs::iter::IteratorSpec;

verus! {

broadcast use vstd::std_specs::hash::group_hash_axioms;

/// The surfaces currently enrolled, each identified by its window handle.
///
/// A handle is an identity and nothing more: the registry never owns the
/// window behind it. Seen from outside the registry is a mathematical set,
/// so a handle is enrolled once however often it is enabled.
pub struct Registry {
    targets: HashSet<isize>,
}

impl View for Registry {
    type V = Set<isize>;

    closed spec fn view(&self) -> Set<isize> {
        self.targets@
    }
}

impl Registry {
    /// A registry with no surface enrolled.
    pub fn new() -> (registry: Self)
        ensures
            registry@ == Set::<isize>::empty(),
    {
        Registry { targets: HashSet::new() }
    }

    /// Enrols `target`. Returns whether the registry was empty before the
    /// call, which is when a pointer hook first becomes necessary.
    pub fn enable(&mut self, target: isize) -> (was_empty: bool)
        ensures
            final(self)@ == old(self)@.insert(target),
            was_empty == old(self)@.is_empty(),
    {
        let was_empty = self.targets.is_empty();
        self.targets.insert(target);
        was_empty
    }

    /// Withdraws `target`. Returns whether the registry is empty after the
    /// call, which is when a pointer hook stops being necessary.
    pub fn disable(&mut self, target: isize) -> (now_empty: bool)
        ensures
            final(self)@ == old(self)@.remove(target),
            now_empty == final(self)@.is_empty(),
    {
        self.targets.remove(&target);
        self.targets.is_empty()
    }

    /// Whether `target` is enrolled.
    pub fn contains(&self, target: isize) -> (enrolled: bool)
        ensures
            enrolled == self@.contains(target),
    {
        self.targets.contains(&target)
    }

    /// Whether no surface is enrolled.
    pub fn is_empty(&self) -> (empty: bool)
        ensures
            empty == self@.is_empty(),
    {
        self.targets.is_empty()
    }

    /// The number of enrolled surfaces.
    pub fn len(&self) -> (count: usize)
        ensures
            count == self@.len(),
    {
        self.targets.len()
    }

    /// A copy of the enrolled handles, each exactly once, in no particular
    /// order. The copy can be walked at leisure while the registry itself is
    /// free to change.
    pub fn snapshot(&self) -> (members: Vec<isize>)
        ensures
            members@.no_duplicates(),
            members@.to_set() == self@,
            members@.len() == self@.len(),
    {
        let mut members: Vec<isize> = Vec::new();
        let ghost order = self.targets.iter().remaining();
        for target in it: self.targets.iter()
            invariant
                it.seq() == order,
                members@ == order.take(it.index()).unref(),
        {
            members.push(*target);
        }
        assert(members@ == order.unref());
        members
    }
}

} // verus!
