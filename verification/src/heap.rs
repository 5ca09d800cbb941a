//! The shared list store.
//!
//! Every `List` value is a handle into this arena of backing sequences, so
//! aliased values observe each other's mutations.  Each backing sequence
//! carries an iteration count: collection loops raise it while they walk the
//! list, and the mutating operations refuse to touch a list that is being
//! iterated.  Handles are never reused; a store lives as long as its run.

use vstd::prelude::*;

use crate::value::{dup_values, Value, ValV};

verus! {

/// Spec-level shape of the store: the backing sequences and, for each, the
/// number of loops currently iterating it.
pub struct HeapV {
    pub lists: Seq<Seq<ValV>>,
    pub locks: Seq<u64>,
}

pub struct Heap {
    lists: Vec<Vec<Value>>,
    locks: Vec<u64>,
}

impl View for Heap {
    type V = HeapV;

    closed spec fn view(&self) -> HeapV {
        HeapV { lists: self.lists.deep_view(), locks: self.locks@ }
    }
}

impl Heap {
    pub open spec fn wf(&self) -> bool {
        self@.lists.len() == self@.locks.len()
    }

    pub fn new() -> (r: Heap)
        ensures
            r@.lists.len() == 0,
            r@.locks.len() == 0,
            r.wf(),
    {
        let r = Heap { lists: Vec::new(), locks: Vec::new() };
        proof {
            assert(r@.lists =~= Seq::<Seq<ValV>>::empty());
        }
        r
    }

    pub fn count(&self) -> (n: usize)
        ensures
            n == self@.lists.len(),
    {
        proof {
            assert(self@.lists.len() == self.lists@.len());
        }
        self.lists.len()
    }

    /// Adds a new backing sequence and returns its handle.
    pub fn alloc_list(&mut self, items: Vec<Value>) -> (h: usize)
        requires
            old(self).wf(),
        ensures
            final(self).wf(),
            h == old(self)@.lists.len(),
            final(self)@.lists == old(self)@.lists.push(items.deep_view()),
            final(self)@.locks == old(self)@.locks.push(0u64),
    {
        let h = self.lists.len();
        self.lists.push(items);
        self.locks.push(0);
        proof {
            assert(self@.lists =~~= old(self)@.lists.push(items.deep_view()));
            assert(self@.lists.len() == self.lists@.len());
        }
        h
    }

    pub fn list_len(&self, h: usize) -> (n: usize)
        requires
            h < self@.lists.len(),
        ensures
            n == self@.lists[h as int].len(),
    {
        self.lists[h].len()
    }

    /// Copy of the item at `i`; a list item keeps its handle identity.
    pub fn get(&self, h: usize, i: usize) -> (r: Value)
        requires
            h < self@.lists.len(),
            i < self@.lists[h as int].len(),
        ensures
            r@ == self@.lists[h as int][i as int],
    {
        self.lists[h][i].dup()
    }

    /// Copy of the whole backing sequence at `h`.
    pub fn snapshot(&self, h: usize) -> (r: Vec<Value>)
        requires
            h < self@.lists.len(),
        ensures
            r.deep_view() == self@.lists[h as int],
    {
        dup_values(&self.lists[h])
    }

    pub fn lock_count(&self, h: usize) -> (n: u64)
        requires
            h < self@.locks.len(),
        ensures
            n == self@.locks[h as int],
    {
        self.locks[h]
    }

    pub fn set(&mut self, h: usize, i: usize, v: Value)
        requires
            old(self).wf(),
            h < old(self)@.lists.len(),
            i < old(self)@.lists[h as int].len(),
        ensures
            final(self).wf(),
            final(self)@.lists == old(self)@.lists.update(
                h as int,
                old(self)@.lists[h as int].update(i as int, v@),
            ),
            final(self)@.locks == old(self)@.locks,
    {
        let inner = &mut self.lists[h];
        inner[i] = v;
        proof {
            assert(self@.lists =~~= old(self)@.lists.update(
                h as int,
                old(self)@.lists[h as int].update(i as int, v@),
            ));
        }
    }

    pub fn push_item(&mut self, h: usize, v: Value)
        requires
            old(self).wf(),
            h < old(self)@.lists.len(),
            old(self)@.lists[h as int].len() < usize::MAX,
        ensures
            final(self).wf(),
            final(self)@.lists == old(self)@.lists.update(
                h as int,
                old(self)@.lists[h as int].push(v@),
            ),
            final(self)@.locks == old(self)@.locks,
    {
        let inner = &mut self.lists[h];
        inner.push(v);
        proof {
            assert(self@.lists =~~= old(self)@.lists.update(
                h as int,
                old(self)@.lists[h as int].push(v@),
            ));
        }
    }

    pub fn pop_item(&mut self, h: usize) -> (r: Option<Value>)
        requires
            old(self).wf(),
            h < old(self)@.lists.len(),
        ensures
            final(self).wf(),
            final(self)@.locks == old(self)@.locks,
            old(self)@.lists[h as int].len() == 0 ==> r is None && final(self)@.lists == old(
                self,
            )@.lists,
            old(self)@.lists[h as int].len() > 0 ==> {
                &&& r matches Some(v) && v@ == old(self)@.lists[h as int].last()
                &&& final(self)@.lists == old(self)@.lists.update(
                    h as int,
                    old(self)@.lists[h as int].drop_last(),
                )
            },
    {
        let inner = &mut self.lists[h];
        let r = inner.pop();
        proof {
            if old(self)@.lists[h as int].len() == 0 {
                assert(self@.lists =~~= old(self)@.lists);
            } else {
                assert(self@.lists =~~= old(self)@.lists.update(
                    h as int,
                    old(self)@.lists[h as int].drop_last(),
                ));
            }
        }
        r
    }

    /// Marks the list as being iterated; the count saturates.
    pub fn lock(&mut self, h: usize)
        requires
            old(self).wf(),
            h < old(self)@.locks.len(),
        ensures
            final(self).wf(),
            final(self)@.lists == old(self)@.lists,
            final(self)@.locks == spec_lock(old(self)@.locks, h as int),
    {
        if self.locks[h] < u64::MAX {
            let n = self.locks[h];
            self.locks[h] = n + 1;
        }
        proof {
            assert(self@.locks =~= spec_lock(old(self)@.locks, h as int));
        }
    }

    /// Releases one iteration mark; the count never goes below zero.
    pub fn unlock(&mut self, h: usize)
        requires
            old(self).wf(),
            h < old(self)@.locks.len(),
        ensures
            final(self).wf(),
            final(self)@.lists == old(self)@.lists,
            final(self)@.locks == spec_unlock(old(self)@.locks, h as int),
    {
        if self.locks[h] > 0 {
            let n = self.locks[h];
            self.locks[h] = n - 1;
        }
        proof {
            assert(self@.locks =~= spec_unlock(old(self)@.locks, h as int));
        }
    }
}

/// The lock counts after marking `h` as iterated.
pub open spec fn spec_lock(locks: Seq<u64>, h: int) -> Seq<u64> {
    if locks[h] < u64::MAX {
        locks.update(h, (locks[h] + 1) as u64)
    } else {
        locks
    }
}

/// The lock counts after releasing one iteration mark on `h`.
pub open spec fn spec_unlock(locks: Seq<u64>, h: int) -> Seq<u64> {
    if locks[h] > 0 {
        locks.update(h, (locks[h] - 1) as u64)
    } else {
        locks
    }
}

} // verus!
