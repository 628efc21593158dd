//! The table of resolved images, keyed by resource.

use vstd::prelude::*;

verus! {

/// Where `key` stands in `keys`; meaningful only if it occurs there.
spec fn slot_of(keys: Seq<Seq<char>>, key: Seq<char>) -> int {
    choose|i: int| 0 <= i < keys.len() && keys[i] == key
}

proof fn lemma_slot_of(keys: Seq<Seq<char>>, i: int)
    requires
        keys.no_duplicates(),
        0 <= i < keys.len(),
    ensures
        slot_of(keys, keys[i]) == i,
{
    let j = slot_of(keys, keys[i]);
    assert(0 <= j < keys.len() && keys[j] == keys[i]);
}

/// A map from resource key to the handle under which the resolved image can
/// be drawn. The handle type is the caller's.
pub struct ResultTable<H> {
    keys: Vec<String>,
    handles: Vec<H>,
}

impl<H> View for ResultTable<H> {
    type V = Map<Seq<char>, H>;

    /// The table as a map from key to handle.
    closed spec fn view(&self) -> Map<Seq<char>, H> {
        Map::new(
            |k: Seq<char>| self.keys.deep_view().contains(k),
            |k: Seq<char>| self.handles@[slot_of(self.keys.deep_view(), k)],
        )
    }
}

impl<H> ResultTable<H> {
    #[verifier::type_invariant]
    spec fn aligned(self) -> bool {
        &&& self.keys.deep_view().no_duplicates()
        &&& self.keys.len() == self.handles.len()
    }

    /// An empty table.
    pub fn new() -> (table: ResultTable<H>)
        ensures
            table@ =~= Map::<Seq<char>, H>::empty(),
    {
        ResultTable { keys: Vec::new(), handles: Vec::new() }
    }

    /// The slot that holds `key`, if any does.
    fn find(&self, key: &String) -> (slot: Option<usize>)
        ensures
            match slot {
                Some(i) => i < self.keys.len() && self.keys.deep_view()[i as int] == key@,
                None => !self.keys.deep_view().contains(key@),
            },
    {
        let mut i: usize = 0;
        while i < self.keys.len()
            invariant
                i <= self.keys.len(),
                forall|j: int| 0 <= j < i ==> self.keys.deep_view()[j] != key@,
            decreases self.keys.len() - i,
        {
            if self.keys[i] == *key {
                return Some(i);
            }
            i += 1;
        }
        None
    }

    /// Whether an image is recorded for `key`.
    pub fn contains_key(&self, key: &String) -> (found: bool)
        ensures
            found == self@.dom().contains(key@),
    {
        self.find(key).is_some()
    }

    /// The handle recorded for `key`.
    pub fn get(&self, key: &String) -> (handle: Option<&H>)
        ensures
            match handle {
                Some(h) => self@.dom().contains(key@) && *h == self@[key@],
                None => !self@.dom().contains(key@),
            },
    {
        proof {
            use_type_invariant(self);
        }
        match self.find(key) {
            Some(i) => {
                proof {
                    lemma_slot_of(self.keys.deep_view(), i as int);
                }
                Some(&self.handles[i])
            },
            None => None,
        }
    }

    /// Records `handle` for `key`, in place of what was recorded for it
    /// before, which is returned.
    pub fn insert(&mut self, key: String, handle: H) -> (previous: Option<H>)
        ensures
            final(self)@ == old(self)@.insert(key@, handle),
            previous == if old(self)@.dom().contains(key@) {
                Some(old(self)@[key@])
            } else {
                None::<H>
            },
    {
        proof {
            use_type_invariant(&*self);
        }
        let ghost before = *self;
        let ghost names = self.keys.deep_view();
        let found = self.find(&key);
        let mut taken: ResultTable<H> = ResultTable::new();
        core::mem::swap(self, &mut taken);
        let ResultTable { mut keys, mut handles } = taken;
        let previous = match found {
            Some(i) => {
                handles.push(handle);
                let replaced = handles.swap_remove(i);
                proof {
                    lemma_slot_of(names, i as int);
                    assert forall|k: Seq<char>| names.contains(k) implies #[trigger] handles@[slot_of(
                        names,
                        k,
                    )] == before@.insert(key@, handle)[k] by {
                        let j = slot_of(names, k);
                        assert(0 <= j < names.len() && names[j] == k);
                    }
                }
                Some(replaced)
            },
            None => {
                keys.push(key);
                handles.push(handle);
                proof {
                    let grown = keys.deep_view();
                    assert(grown =~= names.push(key@));
                    assert forall|k: Seq<char>| grown.contains(k) implies #[trigger] handles@[slot_of(
                        grown,
                        k,
                    )] == before@.insert(key@, handle)[k] by {
                        let j = slot_of(grown, k);
                        assert(0 <= j < grown.len() && grown[j] == k);
                        if j < names.len() {
                            assert(names[j] == k);
                            lemma_slot_of(names, j);
                        }
                    }
                    assert forall|k: Seq<char>| grown.contains(k) <==> (names.contains(k) || k
                        == key@) by {
                        if names.contains(k) {
                            let j = slot_of(names, k);
                            assert(0 <= j < names.len() && names[j] == k);
                            assert(grown[j] == k);
                        }
                        if k == key@ {
                            assert(grown[names.len() as int] == k);
                        }
                    }
                }
                None
            },
        };
        *self = ResultTable { keys, handles };
        assert(self@ =~= before@.insert(key@, handle));
        previous
    }

    /// The number of recorded images.
    pub fn len(&self) -> (n: usize)
        ensures
            n == self@.dom().len(),
            self@.dom().finite(),
    {
        proof {
            use_type_invariant(self);
            self.lemma_domain();
        }
        self.keys.len()
    }

    /// Whether nothing is recorded.
    pub fn is_empty(&self) -> (empty: bool)
        ensures
            empty == (self@ =~= Map::<Seq<char>, H>::empty()),
    {
        let empty = self.keys.len() == 0;
        proof {
            if !empty {
                assert(self.keys.deep_view().contains(self.keys.deep_view()[0]));
                assert(self@.dom().contains(self.keys.deep_view()[0]));
            }
        }
        empty
    }

    /// Forgets every recorded image.
    pub fn clear(&mut self)
        ensures
            final(self)@ =~= Map::<Seq<char>, H>::empty(),
    {
        *self = ResultTable::new();
    }

    proof fn lemma_domain(self)
        requires
            self.keys.deep_view().no_duplicates(),
        ensures
            self@.dom() =~= self.keys.deep_view().to_set(),
            self@.dom().finite(),
            self@.dom().len() == self.keys.len(),
    {
        let names = self.keys.deep_view();
        assert(self@.dom() =~= names.to_set());
        names.unique_seq_to_set();
    }
}

} // verus!
