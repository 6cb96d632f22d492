//! The registry of loaded workloads, kept in insertion order.
use vstd::prelude::*;
use crate::request::JrtcAppLoadRequest;

verus! {

/// A workload that the native runtime accepted.
pub struct JrtcAppState {
    pub id: i32,
    pub request: JrtcAppLoadRequest,
    pub start_time: String,
}

/// Loaded workloads in the order they were accepted.
pub struct Registry {
    entries: Vec<JrtcAppState>,
}

impl View for Registry {
    type V = Seq<JrtcAppState>;

    closed spec fn view(&self) -> Seq<JrtcAppState> {
        self.entries@
    }
}

/// Whether some entry of `s` has identifier `id`.
pub open spec fn has_id(s: Seq<JrtcAppState>, id: i32) -> bool {
    exists|i: int| 0 <= i < s.len() && (#[trigger] s[i]).id == id
}

/// `i` is the first position of `s` holding identifier `id`.
pub open spec fn first_with_id(s: Seq<JrtcAppState>, id: i32, i: int) -> bool {
    &&& 0 <= i < s.len()
    &&& s[i].id == id
    &&& forall|k: int| 0 <= k < i ==> (#[trigger] s[k]).id != id
}

/// No two entries of `s` share an identifier.
pub open spec fn ids_unique(s: Seq<JrtcAppState>) -> bool {
    forall|i: int, j: int| 0 <= i < s.len() && 0 <= j < s.len() && i != j ==> s[i].id != s[j].id
}

impl Registry {
    /// An empty registry.
    pub fn new() -> (r: Registry)
        ensures
            r@ == Seq::<JrtcAppState>::empty(),
    {
        Registry { entries: Vec::new() }
    }

    pub fn len(&self) -> (r: usize)
        ensures
            r == self@.len(),
    {
        self.entries.len()
    }

    /// Appends `e` after every entry already held.
    pub fn insert(&mut self, e: JrtcAppState)
        ensures
            final(self)@ == old(self)@.push(e),
    {
        self.entries.push(e);
    }

    /// Position of the first entry with identifier `id`.
    pub fn position(&self, id: i32) -> (r: Option<usize>)
        ensures
            match r {
                Some(i) => first_with_id(self@, id, i as int),
                None => !has_id(self@, id),
            },
    {
        let mut i: usize = 0;
        while i < self.entries.len()
            invariant
                i <= self@.len(),
                self@ == self.entries@,
                forall|k: int| 0 <= k < i ==> (#[trigger] self@[k]).id != id,
            decreases self.entries.len() - i,
        {
            if self.entries[i].id == id {
                return Some(i);
            }
            i = i + 1;
        }
        None
    }

    /// Removes the first entry with identifier `id`; tells whether there was one.
    pub fn remove(&mut self, id: i32) -> (found: bool)
        ensures
            found == has_id(old(self)@, id),
            found ==> exists|i: int|
                first_with_id(old(self)@, id, i) && final(self)@ == old(self)@.remove(i),
            !found ==> final(self)@ == old(self)@,
    {
        match self.position(id) {
            Some(i) => {
                self.entries.remove(i);
                assert(first_with_id(old(self)@, id, i as int));
                true
            },
            None => false,
        }
    }

    /// The first entry with identifier `id`.
    pub fn find(&self, id: i32) -> (r: Option<&JrtcAppState>)
        ensures
            match r {
                Some(e) => exists|i: int| first_with_id(self@, id, i) && *e == self@[i],
                None => !has_id(self@, id),
            },
    {
        match self.position(id) {
            Some(i) => Some(&self.entries[i]),
            None => None,
        }
    }

    /// Every entry, in insertion order.
    pub fn entries(&self) -> (r: &Vec<JrtcAppState>)
        ensures
            r@ == self@,
    {
        &self.entries
    }
}

/// Appending an entry whose identifier is new keeps identifiers unique.
pub proof fn lemma_insert_fresh_keeps_unique(s: Seq<JrtcAppState>, e: JrtcAppState)
    requires
        ids_unique(s),
        !has_id(s, e.id),
    ensures
        ids_unique(s.push(e)),
        s.push(e).len() == s.len() + 1,
{
    assert forall|i: int, j: int|
        0 <= i < s.push(e).len() && 0 <= j < s.push(e).len() && i != j implies
        s.push(e)[i].id != s.push(e)[j].id by {
        if i == s.len() {
            assert(s[j] == s.push(e)[j]);
        } else if j == s.len() {
            assert(s[i] == s.push(e)[i]);
        }
    }
}

} // verus!
