use vstd::prelude::*;
use vstd::pervasive::VecAdditionalExecFns;
use vstd::pervasive::unreached;

verus! {

/// Fixed-identity storage for tasks. An entry keeps its index for as long
/// as it lives; freed indices are reused before the store grows, so the
/// store never holds more entries than the largest population it has seen.
pub struct Slab<T> {
    entries: Vec<Option<T>>,
    free: Vec<usize>,
}

impl<T> View for Slab<T> {
    type V = Map<int, T>;

    /// The live entries, keyed by their index.
    closed spec fn view(&self) -> Map<int, T> {
        Map::new(
            |i: int| 0 <= i < self.entries@.len() && self.entries@[i] is Some,
            |i: int| self.entries@[i]->Some_0,
        )
    }
}

impl<T> Slab<T> {
    pub closed spec fn wf(self) -> bool {
        &&& forall|j: int|
            0 <= j < self.free@.len() ==> (#[trigger] self.free@[j]) < self.entries@.len()
        &&& forall|j1: int, j2: int|
            0 <= j1 < j2 < self.free@.len() ==> self.free@[j1] != self.free@[j2]
        &&& forall|i: int|
            0 <= i < self.entries@.len() ==> ((self.entries@[i] is None) <==> self.free@.contains(
                i as usize,
            ))
    }

    /// How many slots the store has ever allocated, live or free.
    pub closed spec fn capacity(self) -> int {
        self.entries@.len() as int
    }

    pub proof fn lemma_dom_finite(self)
        requires
            self.wf(),
        ensures
            self@.dom().finite(),
            self@.dom().len() <= self.capacity(),
            forall|i: int| self@.dom().contains(i) ==> 0 <= i < self.capacity(),
    {
        let interval = vstd::set_lib::set_int_range(0, self.capacity());
        vstd::set_lib::lemma_int_range(0, self.capacity());
        assert(self@.dom().subset_of(interval));
        vstd::set_lib::lemma_len_subset(self@.dom(), interval);
    }

    pub fn new() -> (r: Self)
        ensures
            r.wf(),
            r@ =~= Map::<int, T>::empty(),
            r.capacity() == 0,
    {
        Slab { entries: Vec::new(), free: Vec::new() }
    }

    /// Stores `t`, reusing a freed slot if one exists, and returns its index.
    pub fn insert(&mut self, t: T) -> (idx: usize)
        requires
            old(self).wf(),
        ensures
            final(self).wf(),
            !old(self)@.contains_key(idx as int),
            final(self)@ == old(self)@.insert(idx as int, t),
            idx < final(self).capacity(),
            old(self).capacity() <= final(self).capacity() <= old(self).capacity() + 1,
            final(self).capacity() > old(self).capacity() ==> old(self)@.dom().len() == old(self).capacity() && idx as int == old(self).capacity(),
    {
        proof {
            old(self).lemma_dom_finite();
        }
        match self.free.pop() {
            Some(idx) => {
                let ghost fr0 = old(self).free@;
                assert(fr0[fr0.len() - 1] == idx);
                assert(fr0.contains(idx));
                assert(self.entries@[idx as int] is None);
                self.entries.set(idx, Some(t));
                proof {
                    assert forall|i: int|
                        0 <= i < self.entries@.len() && i != idx as int implies ((self.entries@[i]
                        is None) <==> self.free@.contains(i as usize)) by {
                        if fr0.contains(i as usize) {
                            let j = choose|j: int| 0 <= j < fr0.len() && fr0[j] == i as usize;
                            assert(i == i as usize as int);
                            if j == fr0.len() - 1 {
                                assert(fr0[j] == idx);
                                assert(false);
                            }
                            assert(self.free@[j] == i as usize);
                            assert(self.free@.contains(i as usize));
                        }
                        if self.free@.contains(i as usize) {
                            let j = choose|j: int|
                                0 <= j < self.free@.len() && self.free@[j] == i as usize;
                            assert(fr0[j] == i as usize);
                            assert(fr0.contains(i as usize));
                        }
                    }
                    assert(!self.free@.contains(idx)) by {
                        if self.free@.contains(idx) {
                            let j = choose|j: int|
                                0 <= j < self.free@.len() && self.free@[j] == idx;
                            assert(fr0[j] == idx && fr0[fr0.len() - 1] == idx);
                        }
                    }
                    assert(final(self)@ =~= old(self)@.insert(idx as int, t));
                }
                idx
            },
            None => {
                let idx = self.entries.len();
                self.entries.push(Some(t));
                proof {
                    assert forall|i: int|
                        0 <= i < self.entries@.len() implies ((self.entries@[i] is None)
                        <==> self.free@.contains(i as usize)) by {
                        if i < idx as int {
                            assert(self.entries@[i] == old(self).entries@[i]);
                        }
                    }
                    assert(final(self)@ =~= old(self)@.insert(idx as int, t));
                    // every slot of the old store was occupied, so the old
                    // population equals the old capacity
                    let interval = vstd::set_lib::set_int_range(0, old(self).capacity());
                    vstd::set_lib::lemma_int_range(0, old(self).capacity());
                    assert forall|i: int| interval.contains(i) implies old(self)@.dom().contains(i) by {
                        assert(!old(self).free@.contains(i as usize));
                        assert(old(self).entries@[i] is Some);
                    }
                    assert(old(self)@.dom() =~= interval);
                }
                idx
            },
        }
    }

    /// Removes and returns the entry at `idx`, if one lives there.
    pub fn remove(&mut self, idx: usize) -> (r: Option<T>)
        requires
            old(self).wf(),
        ensures
            final(self).wf(),
            final(self).capacity() == old(self).capacity(),
            old(self)@.contains_key(idx as int) ==> r == Some(old(self)@[idx as int]) && final(self)@ == old(self)@.remove(idx as int),
            !old(self)@.contains_key(idx as int) ==> r is None && final(self)@ == old(self)@,
    {
        if idx >= self.entries.len() {
            return None;
        }
        let slot: &mut Option<T> = &mut self.entries[idx];
        let r = slot.take();
        match r {
            Some(t) => {
                let ghost fr0 = self.free@;
                assert(!fr0.contains(idx));
                self.free.push(idx);
                proof {
                    assert forall|i: int|
                        0 <= i < self.entries@.len() implies ((self.entries@[i] is None)
                        <==> self.free@.contains(i as usize)) by {
                        if i == idx as int {
                            assert(self.free@[self.free@.len() - 1] == idx);
                        } else {
                            if fr0.contains(i as usize) {
                                let j = choose|j: int| 0 <= j < fr0.len() && fr0[j] == i as usize;
                                assert(self.free@[j] == i as usize);
                            }
                            if self.free@.contains(i as usize) {
                                let j = choose|j: int|
                                    0 <= j < self.free@.len() && self.free@[j] == i as usize;
                                assert(j < fr0.len());
                                assert(fr0[j] == i as usize);
                            }
                        }
                    }
                    assert forall|j1: int, j2: int|
                        0 <= j1 < j2 < self.free@.len() implies self.free@[j1] != self.free@[j2] by {
                        if j2 == self.free@.len() - 1 {
                            assert(fr0[j1] == self.free@[j1]);
                            assert(fr0.contains(self.free@[j1]) || self.free@[j1] != idx);
                        }
                    }
                    assert(final(self)@ =~= old(self)@.remove(idx as int));
                }
                Some(t)
            },
            None => {
                proof {
                    assert(final(self)@ =~= old(self)@);
                }
                None
            },
        }
    }

    /// Like `wf`, except that slot `idx` is empty without standing on the
    /// free list: the state between `take` and `restore`.
    pub closed spec fn wf_hole(self, idx: int) -> bool {
        &&& forall|j: int|
            0 <= j < self.free@.len() ==> (#[trigger] self.free@[j]) < self.entries@.len()
        &&& forall|j1: int, j2: int|
            0 <= j1 < j2 < self.free@.len() ==> self.free@[j1] != self.free@[j2]
        &&& forall|i: int|
            0 <= i < self.entries@.len() && i != idx ==> ((self.entries@[i] is None)
                <==> self.free@.contains(i as usize))
        &&& 0 <= idx < self.entries@.len()
        &&& self.entries@[idx] is None
        &&& !self.free@.contains(idx as usize)
    }

    /// Takes the entry at `idx` out, leaving its slot reserved until
    /// `restore` puts an entry back.
    pub fn take(&mut self, idx: usize) -> (t: T)
        requires
            old(self).wf(),
            old(self)@.contains_key(idx as int),
        ensures
            t == old(self)@[idx as int],
            final(self)@ == old(self)@.remove(idx as int),
            final(self).wf_hole(idx as int),
            final(self).capacity() == old(self).capacity(),
    {
        let slot: &mut Option<T> = &mut self.entries[idx];
        let r = slot.take();
        proof {
            assert(final(self)@ =~= old(self)@.remove(idx as int));
        }
        match r {
            Some(t) => t,
            None => unreached(),
        }
    }

    /// Puts an entry back into the slot that `take` reserved.
    pub fn restore(&mut self, idx: usize, t: T)
        requires
            old(self).wf_hole(idx as int),
        ensures
            final(self).wf(),
            final(self)@ == old(self)@.insert(idx as int, t),
            final(self).capacity() == old(self).capacity(),
    {
        self.entries.set(idx, Some(t));
        proof {
            assert(final(self)@ =~= old(self)@.insert(idx as int, t));
        }
    }

    /// Whether an entry lives at `idx`.
    pub fn contains(&self, idx: usize) -> (r: bool)
        ensures
            r == self@.contains_key(idx as int),
    {
        idx < self.entries.len() && self.entries[idx].is_some()
    }
}

} // verus!
