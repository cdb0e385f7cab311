//! A fixed-capacity arena with an embedded free list that falls back to
//! individual heap allocations when full.
use vstd::prelude::*;

verus! {

/// One slot of a [`RawArena`]: either a live value or a link in the free list.
pub enum RawArenaEntry<T> {
    /// A vacant slot; holds the index of the next free slot.
    Vacant(usize),
    /// A slot holding a live value.
    Occupied(T),
}

/// A handle to a value allocated from a [`RawArena`].
pub enum RawArenaPtr<T> {
    /// The value lives in the arena slot with this index.
    Internal(usize),
    /// The arena was full: the value lives in its own heap allocation.
    External(Box<T>),
}

/// An arena of `BASE_CAPACITY` slots. Vacant slots form a singly linked free
/// list threaded through the slots themselves; slots past the high-water mark
/// (the length of `entries`) have never been handed out. When every slot is in
/// use, allocation falls back to the system allocator.
pub struct RawArena<T, const BASE_CAPACITY: usize> {
    entries: Vec<RawArenaEntry<T>>,
    next: usize,
    allocated: usize,
    free: Ghost<Seq<usize>>,
}

impl<T, const BASE_CAPACITY: usize> RawArena<T, BASE_CAPACITY> {
    /// The index that follows position `k` of the free list.
    pub closed spec fn free_link(&self, k: int) -> usize {
        if k + 1 < self.free@.len() {
            self.free@[k + 1]
        } else {
            self.entries@.len() as usize
        }
    }

    /// The arena's internal consistency: the free list is a chain of distinct
    /// vacant slots below the high-water mark that starts at `next` and ends at
    /// the high-water mark, every vacant slot lies on it, and `allocated`
    /// counts the occupied slots.
    pub closed spec fn wf(&self) -> bool {
        &&& self.entries@.len() <= BASE_CAPACITY
        &&& self.free@.no_duplicates()
        &&& forall|k: int| 0 <= k < self.free@.len() ==> #[trigger] self.free@[k] < self.entries@.len()
        &&& forall|k: int|
            0 <= k < self.free@.len() ==> self.entries@[#[trigger] self.free@[k] as int]
                == RawArenaEntry::<T>::Vacant(self.free_link(k))
        &&& forall|i: int|
            0 <= i < self.entries@.len() && (#[trigger] self.entries@[i] is Vacant)
                ==> self.free@.contains(i as usize)
        &&& self.next == (if self.free@.len() > 0 {
            self.free@[0]
        } else {
            self.entries@.len() as usize
        })
        &&& self.allocated == self.entries@.len() - self.free@.len()
    }

    /// The values held in the arena's slots, by slot index.
    pub closed spec fn view(&self) -> Map<usize, T> {
        Map::new(
            |i: usize| i < self.entries@.len() && self.entries@[i as int] is Occupied,
            |i: usize| self.entries@[i as int]->Occupied_0,
        )
    }

    /// The vacant slots, the most recently freed first: the order in which
    /// allocations reuse them.
    pub closed spec fn spec_free_list(&self) -> Seq<usize> {
        self.free@
    }

    /// The high-water mark: slots from here on were never handed out.
    pub closed spec fn spec_high_water(&self) -> nat {
        self.entries@.len()
    }

    /// The number of slots in use.
    pub closed spec fn spec_allocated(&self) -> nat {
        self.allocated as nat
    }

    /// Whether `ptr` refers to a live value of this arena.
    pub open spec fn holds(&self, ptr: &RawArenaPtr<T>) -> bool {
        match ptr {
            RawArenaPtr::Internal(i) => self@.dom().contains(*i),
            RawArenaPtr::External(_) => true,
        }
    }

    /// The value that `ptr` refers to.
    pub open spec fn value_of(&self, ptr: &RawArenaPtr<T>) -> T {
        match ptr {
            RawArenaPtr::Internal(i) => self@[*i],
            RawArenaPtr::External(b) => **b,
        }
    }

    spec fn occupied_below(&self, n: int) -> Set<usize> {
        Set::new(|i: usize| i < n && self.entries@[i as int] is Occupied)
    }

    spec fn vacant_below(&self, n: int) -> Set<usize> {
        Set::new(|i: usize| i < n && self.entries@[i as int] is Vacant)
    }

    proof fn lemma_split_count(&self, n: int)
        requires
            0 <= n <= self.entries@.len(),
        ensures
            self.occupied_below(n).finite(),
            self.vacant_below(n).finite(),
            self.occupied_below(n).len() + self.vacant_below(n).len() == n,
        decreases n,
    {
        if n == 0 {
            assert(self.occupied_below(0) =~= Set::empty());
            assert(self.vacant_below(0) =~= Set::empty());
        } else {
            self.lemma_split_count(n - 1);
            assert(self.entries@.len() == self.entries.len());
            let m = (n - 1) as usize;
            if self.entries@[n - 1] is Occupied {
                assert(self.occupied_below(n) =~= self.occupied_below(n - 1).insert(m));
                assert(self.vacant_below(n) =~= self.vacant_below(n - 1));
            } else {
                assert(self.occupied_below(n) =~= self.occupied_below(n - 1));
                assert(self.vacant_below(n) =~= self.vacant_below(n - 1).insert(m));
            }
        }
    }

    /// The count of allocated slots is the number of live values.
    pub proof fn lemma_live_count(&self)
        requires
            self.wf(),
        ensures
            self@.dom().finite(),
            self@.dom().len() == self.spec_allocated(),
            self.spec_allocated() <= BASE_CAPACITY,
    {
        let n = self.entries@.len() as int;
        self.lemma_split_count(n);
        assert(self@.dom() =~= self.occupied_below(n));
        assert(self.vacant_below(n) =~= self.free@.to_set()) by {
            assert forall|i: usize| self.free@.to_set().contains(i) implies self.vacant_below(
                n,
            ).contains(i) by {
                let k = choose|k: int| 0 <= k < self.free@.len() && self.free@[k] == i;
                assert(self.free@[k] < self.entries@.len());
            }
        }
        self.free@.unique_seq_to_set();
    }

    /// An empty arena.
    pub fn new() -> (r: Self)
        ensures
            r.wf(),
            r@ == Map::<usize, T>::empty(),
            r.spec_allocated() == 0,
            r.spec_free_list() == Seq::<usize>::empty(),
            r.spec_high_water() == 0,
    {
        let r = RawArena { entries: Vec::new(), next: 0, allocated: 0, free: Ghost(Seq::empty()) };
        assert(r@ =~= Map::<usize, T>::empty());
        r
    }

    /// The number of values that can still be allocated without falling back
    /// to the system allocator.
    pub fn remaining(&self) -> (r: usize)
        requires
            self.wf(),
        ensures
            r == BASE_CAPACITY - self.spec_allocated(),
    {
        BASE_CAPACITY - self.allocated
    }

    /// Allocates `value`. While a slot is free the value goes into the arena,
    /// to the slot at the head of the free list or else just past the
    /// high-water mark; once every slot is in use it goes into an allocation
    /// of its own and the arena is left as it was.
    pub fn allocate(&mut self, value: T) -> (r: RawArenaPtr<T>)
        requires
            old(self).wf(),
        ensures
            final(self).wf(),
            old(self).spec_allocated() < BASE_CAPACITY ==> (r matches RawArenaPtr::Internal(i)
                && !old(self)@.dom().contains(i) && final(self)@ == old(self)@.insert(i, value)
                && final(self).spec_allocated() == old(self).spec_allocated() + 1),
            old(self).spec_allocated() >= BASE_CAPACITY ==> (r matches RawArenaPtr::External(b)
                && *b == value && final(self)@ == old(self)@ && final(self).spec_allocated()
                == old(self).spec_allocated() && final(self).spec_free_list() == old(
                self,
            ).spec_free_list() && final(self).spec_high_water() == old(self).spec_high_water()),
            old(self).spec_allocated() < BASE_CAPACITY && old(self).spec_free_list().len() > 0
                ==> (r matches RawArenaPtr::Internal(i) && i == old(self).spec_free_list()[0]
                && final(self).spec_free_list() == old(self).spec_free_list().drop_first()
                && final(self).spec_high_water() == old(self).spec_high_water()),
            old(self).spec_allocated() < BASE_CAPACITY && old(self).spec_free_list().len() == 0
                ==> (r matches RawArenaPtr::Internal(i) && i == old(self).spec_high_water()
                && final(self).spec_free_list() == old(self).spec_free_list()
                && final(self).spec_high_water() == old(self).spec_high_water() + 1),
    {
        proof {
            self.lemma_live_count();
        }
        let ghost old_self = *self;
        if self.next == self.entries.len() {
            if self.entries.len() == BASE_CAPACITY {
                return RawArenaPtr::External(Box::new(value));
            }
            let i = self.entries.len();
            self.entries.push(RawArenaEntry::Occupied(value));
            self.next = i + 1;
            self.allocated = self.allocated + 1;
            proof {
                assert forall|k: int| 0 <= k < self.free@.len() implies self.entries@[#[trigger] self.free@[k] as int]
                    == RawArenaEntry::<T>::Vacant(self.free_link(k)) by {
                }
                assert(self@ =~= old_self@.insert(i, value));
            }
            RawArenaPtr::Internal(i)
        } else {
            let i = self.next;
            let link = match &self.entries[i] {
                RawArenaEntry::Vacant(n) => *n,
                RawArenaEntry::Occupied(_) => 0,
            };
            proof {
                assert(self.free@.len() > 0);
                assert(self.entries@[self.free@[0] as int] == RawArenaEntry::<T>::Vacant(self.free_link(0)));
            }
            self.entries[i] = RawArenaEntry::Occupied(value);
            self.next = link;
            self.allocated = self.allocated + 1;
            proof {
                let old_free = self.free@;
                self.free@ = old_free.drop_first();
                assert forall|k: int| 0 <= k < self.free@.len() implies #[trigger] self.free@[k] < self.entries@.len() by {
                    assert(self.free@[k] == old_free[k + 1]);
                }
                assert forall|k: int| 0 <= k < self.free@.len() implies self.entries@[#[trigger] self.free@[k] as int]
                    == RawArenaEntry::<T>::Vacant(self.free_link(k)) by {
                    assert(self.free@[k] == old_free[k + 1]);
                    assert(old_free[k + 1] != old_free[0]);
                    assert(old_self.free_link(k + 1) == self.free_link(k));
                }
                assert forall|j: int| 0 <= j < self.entries@.len() && (#[trigger] self.entries@[j] is Vacant)
                    implies self.free@.contains(j as usize) by {
                    assert(j != i);
                    assert(old_free.contains(j as usize));
                    let k = choose|k: int| 0 <= k < old_free.len() && old_free[k] == j as usize;
                    assert(k != 0);
                    assert(self.free@[k - 1] == j as usize);
                }
                assert(self@ =~= old_self@.insert(i, value));
            }
            RawArenaPtr::Internal(i)
        }
    }

    /// The value that `ptr` refers to.
    pub fn get<'a>(&'a self, ptr: &'a RawArenaPtr<T>) -> (r: &'a T)
        requires
            self.wf(),
            self.holds(ptr),
        ensures
            *r == self.value_of(ptr),
    {
        match ptr {
            RawArenaPtr::Internal(i) => {
                match &self.entries[*i] {
                    RawArenaEntry::Occupied(v) => v,
                    RawArenaEntry::Vacant(_) => vstd::pervasive::unreached(),
                }
            },
            RawArenaPtr::External(b) => &**b,
        }
    }

    /// Returns a value to the arena and hands it back. A slot of the arena
    /// goes to the head of the free list; a value that had an allocation of
    /// its own leaves the arena as it was.
    pub fn recycle(&mut self, ptr: RawArenaPtr<T>) -> (r: T)
        requires
            old(self).wf(),
            old(self).holds(&ptr),
        ensures
            final(self).wf(),
            r == old(self).value_of(&ptr),
            ptr matches RawArenaPtr::Internal(i) ==> final(self)@ == old(self)@.remove(i)
                && final(self).spec_allocated() == old(self).spec_allocated() - 1
                && final(self).spec_free_list() == seq![i] + old(self).spec_free_list(),
            ptr is External ==> final(self)@ == old(self)@ && final(self).spec_allocated()
                == old(self).spec_allocated() && final(self).spec_free_list() == old(
                self,
            ).spec_free_list(),
            final(self).spec_high_water() == old(self).spec_high_water(),
    {
        proof {
            self.lemma_live_count();
        }
        let ghost old_self = *self;
        match ptr {
            RawArenaPtr::External(b) => *b,
            RawArenaPtr::Internal(i) => {
                let mut slot = RawArenaEntry::Vacant(self.next);
                std::mem::swap(&mut slot, &mut self.entries[i]);
                self.next = i;
                proof {
                    assert(old_self@.dom().contains(i));
                    assert(!old_self.free@.contains(i)) by {
                        if old_self.free@.contains(i) {
                            let k = choose|k: int| 0 <= k < old_self.free@.len() && old_self.free@[k] == i;
                            assert(old_self.entries@[old_self.free@[k] as int] is Vacant);
                        }
                    }
                    assert(self@.dom().len() == old_self@.dom().len() - 1) by {
                        assert(self@.dom() =~= old_self@.dom().remove(i));
                    }
                    let old_free = old_self.free@;
                    self.free@ = seq![i].add(old_free);
                    assert forall|k: int| 0 <= k < self.free@.len() implies #[trigger] self.free@[k] < self.entries@.len() by {
                        if k > 0 {
                            assert(self.free@[k] == old_free[k - 1]);
                        }
                    }
                    assert forall|k: int| 0 <= k < self.free@.len() implies self.entries@[#[trigger] self.free@[k] as int]
                        == RawArenaEntry::<T>::Vacant(self.free_link(k)) by {
                        if k > 0 {
                            assert(self.free@[k] == old_free[k - 1]);
                            assert(old_free[k - 1] != i);
                            assert(old_self.free_link(k - 1) == self.free_link(k));
                        }
                    }
                    assert forall|j: int| 0 <= j < self.entries@.len() && (#[trigger] self.entries@[j] is Vacant)
                        implies self.free@.contains(j as usize) by {
                        if j != i {
                            assert(old_free.contains(j as usize));
                            let k = choose|k: int| 0 <= k < old_free.len() && old_free[k] == j as usize;
                            assert(self.free@[k + 1] == j as usize);
                        } else {
                            assert(self.free@[0] == i);
                        }
                    }
                    assert(self.free@.no_duplicates()) by {
                        assert forall|a: int, b: int| 0 <= a < b < self.free@.len() implies self.free@[a] != self.free@[b] by {
                            if a > 0 {
                                assert(self.free@[a] == old_free[a - 1]);
                            }
                            assert(self.free@[b] == old_free[b - 1]);
                        }
                    }
                    assert(self@ =~= old_self@.remove(i));
                }
                self.allocated = self.allocated - 1;
                match slot {
                    RawArenaEntry::Occupied(v) => v,
                    RawArenaEntry::Vacant(_) => vstd::pervasive::unreached(),
                }
            },
        }
    }

    /// Forgets every value held in the arena's slots and resets it to its
    /// initial state. Handles to values in the arena's slots are no longer
    /// held by it; values in allocations of their own are unaffected.
    pub fn clear_allocated(&mut self)
        requires
            old(self).wf(),
        ensures
            final(self).wf(),
            final(self)@ == Map::<usize, T>::empty(),
            final(self).spec_allocated() == 0,
            final(self).spec_free_list() == Seq::<usize>::empty(),
            final(self).spec_high_water() == 0,
    {
        self.entries.clear();
        self.next = 0;
        self.allocated = 0;
        proof {
            self.free@ = Seq::empty();
            assert(self@ =~= Map::<usize, T>::empty());
        }
    }
}

impl<T, const BASE_CAPACITY: usize> Default for RawArena<T, BASE_CAPACITY> {
    fn default() -> (r: Self)
        ensures
            r.wf(),
            r@ == Map::<usize, T>::empty(),
            r.spec_allocated() == 0,
            r.spec_free_list() == Seq::<usize>::empty(),
            r.spec_high_water() == 0,
    {
        Self::new()
    }
}

} // verus!
