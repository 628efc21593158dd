//! The queue of resource keys that wait for a fetch round.

use std::collections::VecDeque;
use vstd::prelude::*;

verus! {

/// An ordered set of resource keys: insertion order is kept and no key occurs
/// twice.
#[derive(Debug)]
pub struct PendingQueue {
    keys: VecDeque<String>,
}

impl View for PendingQueue {
    type V = Seq<Seq<char>>;

    /// The queued keys, oldest first.
    closed spec fn view(&self) -> Seq<Seq<char>> {
        self.keys.deep_view()
    }
}

impl PendingQueue {
    #[verifier::type_invariant]
    spec fn distinct(self) -> bool {
        self.keys.deep_view().no_duplicates()
    }

    /// An empty queue.
    pub fn new() -> (queue: PendingQueue)
        ensures
            queue@ =~= Seq::<Seq<char>>::empty(),
    {
        let queue = PendingQueue { keys: VecDeque::new() };
        assert(queue.keys.deep_view() =~= Seq::<Seq<char>>::empty());
        queue
    }

    /// The number of queued keys.
    pub fn len(&self) -> (n: usize)
        ensures
            n == self@.len(),
            self@.no_duplicates(),
    {
        proof {
            use_type_invariant(self);
        }
        self.keys.len()
    }

    /// Whether no key is queued.
    pub fn is_empty(&self) -> (empty: bool)
        ensures
            empty == (self@.len() == 0),
    {
        self.keys.len() == 0
    }

    /// Whether `key` is queued.
    pub fn contains(&self, key: &String) -> (found: bool)
        ensures
            found == self@.contains(key@),
    {
        let mut i: usize = 0;
        while i < self.keys.len()
            invariant
                i <= self.keys.len(),
                forall|j: int| 0 <= j < i ==> self@[j] != key@,
            decreases self.keys.len() - i,
        {
            if self.keys[i] == *key {
                assert(self@[i as int] == key@);
                return true;
            }
            i += 1;
        }
        false
    }

    /// Appends `key` unless it is queued already. Returns whether it was
    /// appended.
    pub fn push(&mut self, key: String) -> (added: bool)
        ensures
            added == !old(self)@.contains(key@),
            final(self)@ == if added {
                old(self)@.push(key@)
            } else {
                old(self)@
            },
            final(self)@.no_duplicates(),
    {
        proof {
            use_type_invariant(&*self);
        }
        if self.contains(&key) {
            false
        } else {
            let ghost before = self@;
            let mut keys: VecDeque<String> = VecDeque::new();
            assert(keys.deep_view() =~= Seq::<Seq<char>>::empty());
            core::mem::swap(&mut self.keys, &mut keys);
            keys.push_back(key);
            assert(keys.deep_view() =~= before.push(key@));
            self.keys = keys;
            true
        }
    }

    /// Empties the queue and returns what it held, oldest first.
    pub fn drain(&mut self) -> (batch: Vec<String>)
        ensures
            batch.deep_view() == old(self)@,
            batch.deep_view().no_duplicates(),
            final(self)@ =~= Seq::<Seq<char>>::empty(),
    {
        proof {
            use_type_invariant(&*self);
        }
        let ghost before = self@;
        let mut waiting: VecDeque<String> = VecDeque::new();
        assert(waiting.deep_view() =~= Seq::<Seq<char>>::empty());
        core::mem::swap(&mut self.keys, &mut waiting);
        let mut batch: Vec<String> = Vec::new();
        assert(batch.deep_view() + waiting.deep_view() =~= before);
        loop
            invariant
                before == old(self)@,
                before.no_duplicates(),
                self@ =~= Seq::<Seq<char>>::empty(),
                batch.deep_view() + waiting.deep_view() == before,
            decreases waiting.len(),
        {
            let ghost taken = batch.deep_view();
            let ghost left = waiting.deep_view();
            match waiting.pop_front() {
                Some(key) => {
                    batch.push(key);
                    assert(batch.deep_view() =~= taken.push(left[0]));
                    assert(waiting.deep_view() =~= left.subrange(1, left.len() as int));
                    assert(batch.deep_view() + waiting.deep_view() =~= taken + left);
                },
                None => {
                    assert(batch.deep_view() =~= before);
                    return batch;
                },
            }
        }
    }

    /// Forgets every queued key.
    pub fn clear(&mut self)
        ensures
            final(self)@ =~= Seq::<Seq<char>>::empty(),
    {
        let keys: VecDeque<String> = VecDeque::new();
        assert(keys.deep_view() =~= Seq::<Seq<char>>::empty());
        self.keys = keys;
    }
}

} // verus!
