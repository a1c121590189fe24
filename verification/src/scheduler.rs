use vstd::prelude::*;
use vstd::pervasive::unreached;
use std::collections::HashMap;
use crate::slab::Slab;
use crate::page::WakerPage;
use crate::page::bit64;
use crate::task::CoTask;
use crate::task::TaskStatus;
use crate::rng::rng_from_seed;
use crate::rng::rng_draw_id;
use crate::rng::rng_from_os;
use crate::bits::set_bit_positions;

verus! {

broadcast use vstd::std_specs::hash::group_hash_axioms;

proof fn lemma_div64(x: int)
    requires
        x >= 0,
    ensures
        x == 64 * (x / 64) + x % 64,
        0 <= x % 64 < 64,
{
    vstd::arithmetic::div_mod::lemma_fundamental_div_mod(x, 64);
    vstd::arithmetic::div_mod::lemma_mod_division_less_than_divisor(x, 64);
}

proof fn lemma_slot_index(p: int, k: int)
    requires
        0 <= p,
        0 <= k < 64,
    ensures
        (p * 64 + k) / 64 == p,
        (p * 64 + k) % 64 == k,
{
    vstd::arithmetic::div_mod::lemma_fundamental_div_mod_converse_div(p * 64 + k, 64, p, k);
    vstd::arithmetic::div_mod::lemma_fundamental_div_mod_converse_mod(p * 64 + k, 64, p, k);
}

/// Seed for the task-id generator, chosen arbitrarily; a fixed seed keeps
/// runs reproducible.
pub const SCHEDULER_SEED: u64 = 42;

/// Largest task population the scheduler accepts. Ids are drawn from a
/// 16-bit space, so populations near 2^16 would make fresh draws scarce.
pub const MAX_NUM_TASKS: usize = 16000;

/// How many random draws the id allocator makes before giving up.
pub const MAX_RETRIES_TASK_ID_ALLOC: usize = 500;

/// A single-threaded cooperative task scheduler.
///
/// Tasks live in a fixed-identity slab; each task is addressed externally
/// by a random 64-bit id (drawn from a 16-bit space) and internally by its
/// slab index. Readiness is kept in packed 64-slot bitmap pages: slot
/// `idx` of the store corresponds to bit `idx % 64` of page `idx / 64`.
pub struct Scheduler<T> {
    /// Stores all the tasks that are held by the scheduler.
    tasks: Slab<T>,
    /// Maps between externally meaningful ids and the index of the task in the slab.
    task_ids: HashMap<u64, usize>,
    /// Holds the waker bits for controlling task scheduling.
    pages: Vec<WakerPage>,
    /// Random number generator for task ids.
    rng: rand::rngs::SmallRng,
    /// The slab indices of every task ever polled, in poll order.
    history: Ghost<Seq<int>>,
}

impl<T> Scheduler<T> {
    /// The id table: external task id to slab index.
    pub closed spec fn id_map(self) -> Map<u64, usize> {
        self.task_ids@
    }

    /// The task store: slab index to task.
    pub closed spec fn tasks_map(self) -> Map<int, T> {
        self.tasks@
    }

    /// The slab indices of every task ever polled, in poll order.
    pub closed spec fn polled(self) -> Seq<int> {
        self.history@
    }

    /// How many bitmap slots exist (64 per page).
    pub closed spec fn num_slots(self) -> int {
        self.pages@.len() * 64int
    }

    pub open spec fn live(self, id: u64) -> bool {
        self.id_map().contains_key(id)
    }

    pub open spec fn slot_of(self, id: u64) -> int {
        self.id_map()[id] as int
    }

    pub open spec fn num_tasks_spec(self) -> nat {
        self.id_map().dom().len()
    }

    pub closed spec fn slot_notified_at(self, idx: int) -> bool {
        self.pages@[idx / 64].is_notified(idx % 64)
    }

    pub closed spec fn slot_completed_at(self, idx: int) -> bool {
        self.pages@[idx / 64].is_completed(idx % 64)
    }

    pub closed spec fn slot_dropped_at(self, idx: int) -> bool {
        self.pages@[idx / 64].is_dropped(idx % 64)
    }

    /// A slot that the next scan must poll: it holds a live task, is
    /// notified, and is neither completed nor dropped.
    pub open spec fn is_ready(self, idx: int) -> bool {
        &&& self.tasks_map().contains_key(idx)
        &&& self.slot_notified_at(idx)
        &&& !self.slot_completed_at(idx)
        &&& !self.slot_dropped_at(idx)
    }

    pub closed spec fn wf(self) -> bool {
        &&& self.tasks.wf()
        &&& self.tasks.capacity() <= MAX_NUM_TASKS + 1
        &&& self.tasks.capacity() <= self.pages@.len() * 64
        &&& self.pages@.len() * 64 < self.tasks.capacity() + 64
        &&& forall|id: u64|
            #[trigger] self.task_ids@.contains_key(id) ==> self.tasks@.contains_key(
                self.task_ids@[id] as int,
            )
        &&& forall|id1: u64, id2: u64|
            self.task_ids@.contains_key(id1) && self.task_ids@.contains_key(id2) && id1 != id2
                ==> self.task_ids@[id1] != self.task_ids@[id2]
        &&& self.tasks@.dom().len() == self.task_ids@.dom().len()
        &&& forall|idx: int|
            0 <= idx < self.pages@.len() * 64 && !self.tasks@.contains_key(idx) ==> !(
            #[trigger] self.slot_notified_at(idx))
        &&& forall|idx: int|
            0 <= idx < self.pages@.len() * 64 ==> !(#[trigger] self.slot_dropped_at(idx))
    }

    /// Every index a live id maps to names a stored task and lies under the
    /// bitmap slots.
    pub proof fn lemma_live_slot_bounds(self, id: u64)
        requires
            self.wf(),
            self.live(id),
        ensures
            self.tasks_map().contains_key(self.slot_of(id)),
            0 <= self.slot_of(id) < self.num_slots(),
    {
        self.tasks.lemma_dom_finite();
    }

    /// A live task's slot never carries the dropped bit, so a live,
    /// notified, not-completed task is exactly a ready one.
    pub proof fn lemma_live_slot_not_dropped(self, id: u64)
        requires
            self.wf(),
            self.live(id),
        ensures
            !self.slot_dropped_at(self.slot_of(id)),
            self.slot_notified_at(self.slot_of(id)) && !self.slot_completed_at(self.slot_of(id))
                ==> self.is_ready(self.slot_of(id)),
    {
        self.lemma_live_slot_bounds(id);
    }

    /// Uniqueness of live task ids: the id table never maps two distinct
    /// live ids to the same task.
    pub proof fn lemma_task_ids_unique(self, id1: u64, id2: u64)
        requires
            self.wf(),
            self.live(id1),
            self.live(id2),
            id1 != id2,
        ensures
            self.slot_of(id1) != self.slot_of(id2),
    {
    }

    /// Well-formedness depends only on the task store, the id table, and
    /// the bitmap pages, not on the generator or the poll record.
    proof fn lemma_wf_same_fields(a: Self, b: Self)
        requires
            a.wf(),
            b.tasks == a.tasks,
            b.task_ids == a.task_ids,
            b.pages == a.pages,
        ensures
            b.wf(),
    {
        assert forall|idx: int|
            0 <= idx < b.pages@.len() * 64 && !b.tasks@.contains_key(idx) implies !(#[trigger] b.slot_notified_at(idx)) by {
            assert(b.slot_notified_at(idx) == a.slot_notified_at(idx));
        }
        assert forall|idx: int| 0 <= idx < b.pages@.len() * 64 implies !(#[trigger] b.slot_dropped_at(idx)) by {
            assert(b.slot_dropped_at(idx) == a.slot_dropped_at(idx));
        }
    }

    /// A change confined to bitmap page `p` leaves every slot outside that
    /// page as it was.
    proof fn lemma_other_pages_slots(a: Self, b: Self, p: int)
        requires
            a.pages@.len() == b.pages@.len(),
            0 <= p < a.pages@.len(),
            forall|j: int| 0 <= j < a.pages@.len() && j != p ==> a.pages@[j] == b.pages@[j],
        ensures
            forall|idx: int|
                #![trigger b.slot_notified_at(idx)]
                #![trigger b.slot_completed_at(idx)]
                #![trigger b.slot_dropped_at(idx)]
                0 <= idx < b.pages@.len() * 64 && !(p * 64 <= idx < p * 64 + 64)
                    ==> b.slot_notified_at(idx) == a.slot_notified_at(idx)
                    && b.slot_completed_at(idx) == a.slot_completed_at(idx)
                    && b.slot_dropped_at(idx) == a.slot_dropped_at(idx),
    {
        assert forall|idx: int|
            #![trigger b.slot_notified_at(idx)]
            #![trigger b.slot_completed_at(idx)]
            #![trigger b.slot_dropped_at(idx)]
            0 <= idx < b.pages@.len() * 64 && !(p * 64 <= idx < p * 64 + 64) implies b.slot_notified_at(idx) == a.slot_notified_at(idx) && b.slot_completed_at(idx)
            == a.slot_completed_at(idx) && b.slot_dropped_at(idx) == a.slot_dropped_at(idx) by {
            lemma_div64(idx);
            if idx / 64 == p {
                assert(p * 64 <= idx < p * 64 + 64);
            }
            assert(b.pages@[idx / 64] == a.pages@[idx / 64]);
        }
    }

    /// How many tasks are resident (live or completed-but-not-removed).
    pub fn num_tasks(&self) -> (r: usize)
        ensures
            r as nat == self.num_tasks_spec(),
    {
        self.task_ids.len()
    }

    /// Whether `task_id` names a resident task.
    pub fn contains_task_id(&self, task_id: u64) -> (r: bool)
        ensures
            r == self.live(task_id),
    {
        self.task_ids.contains_key(&task_id)
    }

    /// A fresh scheduler whose id generator is seeded from the operating
    /// system, so task ids are unpredictable across runs; where no system
    /// entropy can be had, it falls back to the fixed seed.
    pub fn with_entropy() -> (r: Self)
        ensures
            r.wf(),
            r.id_map() == Map::<u64, usize>::empty(),
            r.tasks_map() == Map::<int, T>::empty(),
            r.polled() == Seq::<int>::empty(),
            r.num_slots() == 0,
    {
        let rng = match rng_from_os() {
            Some(rng) => rng,
            None => rng_from_seed(SCHEDULER_SEED),
        };
        let r = Scheduler {
            tasks: Slab::new(),
            task_ids: HashMap::new(),
            pages: Vec::new(),
            rng,
            history: Ghost(Seq::empty()),
        };
        proof {
            assert(r.tasks@.dom() =~= Set::<int>::empty());
            assert(r.task_ids@.dom() =~= Set::<u64>::empty());
        }
        r
    }

    /// Draws random 16-bit ids until one is not in use, giving up after
    /// `MAX_RETRIES_TASK_ID_ALLOC` collisions. Touches nothing but the
    /// generator.
    fn draw_fresh_id(&mut self) -> (r: Option<u64>)
        ensures
            final(self).task_ids == old(self).task_ids,
            final(self).tasks == old(self).tasks,
            final(self).pages == old(self).pages,
            final(self).history == old(self).history,
            r matches Some(id) ==> !final(self).task_ids@.contains_key(id) && id < 0x10000,
            old(self).task_ids@.len() == 0 ==> r is Some,
    {
        let mut i: usize = 0;
        while i < MAX_RETRIES_TASK_ID_ALLOC
            invariant
                self.task_ids == old(self).task_ids,
                self.tasks == old(self).tasks,
                self.pages == old(self).pages,
                self.history == old(self).history,
                old(self).task_ids@.len() == 0 ==> i == 0,
            decreases MAX_RETRIES_TASK_ID_ALLOC - i,
        {
            let cand = rng_draw_id(&mut self.rng);
            if !self.task_ids.contains_key(&cand) {
                return Some(cand);
            }
            proof {
                assert(self.task_ids@.dom().len() > 0) by {
                    assert(self.task_ids@.dom().contains(cand));
                    assert(self.task_ids@.dom().remove(cand).len() == self.task_ids@.dom().len()
                        - 1);
                }
            }
            i = i + 1;
        }
        None
    }
}

impl<T: CoTask> Scheduler<T> {
    /// Inserts a task, marks its slot notified so it is polled at least
    /// once, and returns a fresh random id for it. Returns `None` only when
    /// the id allocator exhausted its retry budget, which leaves the
    /// scheduler's tasks, ids, and readiness bits unchanged; that outcome
    /// is reported as a value rather than a panic, since it hinges on
    /// random draws and no precondition could rule it out.
    pub fn insert(&mut self, task: T) -> (r: Option<u64>)
        requires
            old(self).wf(),
            old(self).num_tasks_spec() <= MAX_NUM_TASKS as nat,
        ensures
            final(self).wf(),
            final(self).polled() == old(self).polled(),
            old(self).num_tasks_spec() == 0 ==> r is Some,
            r is None ==> final(self).id_map() == old(self).id_map() && final(self).tasks_map()
                == old(self).tasks_map() && final(self).num_slots() == old(self).num_slots()
                && (forall|idx: int|
                0 <= idx < old(self).num_slots() ==> (#[trigger] final(self).slot_notified_at(idx))
                    == old(self).slot_notified_at(idx) && final(self).slot_completed_at(idx) == old(self).slot_completed_at(idx)),
            r matches Some(id) ==> {
                &&& id < 0x10000
                &&& !old(self).live(id)
                &&& final(self).live(id)
                &&& final(self).id_map() == old(self).id_map().insert(
                    id,
                    final(self).id_map()[id],
                )
                &&& !old(self).tasks_map().contains_key(final(self).slot_of(id))
                &&& final(self).tasks_map() == old(self).tasks_map().insert(
                    final(self).slot_of(id),
                    task,
                )
                &&& final(self).slot_notified_at(final(self).slot_of(id))
                &&& !final(self).slot_completed_at(final(self).slot_of(id))
                &&& forall|idx: int|
                    0 <= idx < old(self).num_slots() && idx != final(self).slot_of(id) ==> (
                    #[trigger] final(self).slot_notified_at(idx)) == old(self).slot_notified_at(idx)
                        && final(self).slot_completed_at(idx) == old(self).slot_completed_at(idx)
            },
    {
        proof {
            old(self).tasks.lemma_dom_finite();
        }
        let id = match self.draw_fresh_id() {
            Some(id) => id,
            None => {
                proof {
                    Self::lemma_wf_same_fields(*old(self), *self);
                }
                return None;
            },
        };
        let idx = self.tasks.insert(task);
        let ghost mid = *self;
        while idx / 64 >= self.pages.len()
            invariant
                self.tasks == mid.tasks,
                self.task_ids == mid.task_ids,
                self.history == mid.history,
                idx < self.tasks.capacity(),
                mid.pages@.len() <= self.pages@.len(),
                self.pages@.len() == mid.pages@.len() || (self.pages@.len() - 1) * 64 <= idx,
                forall|j: int|
                    0 <= j < mid.pages@.len() ==> #[trigger] self.pages@[j] == mid.pages@[j],
                forall|j: int, k: int|
                    mid.pages@.len() <= j < self.pages@.len() && 0 <= k < 64 ==> !(
                    #[trigger] self.pages@[j].is_notified(k)) && !self.pages@[j].is_completed(k)
                        && !self.pages@[j].is_dropped(k),
            decreases idx / 64 + 1 - self.pages@.len(),
        {
            self.pages.push(WakerPage::new());
        }
        let p = idx / 64;
        let k = idx % 64;
        assert(p < self.pages@.len()) by {
            lemma_div64(idx as int);
        };
        let ghost pre = *self;
        let page = &mut self.pages[p];
        page.initialize(k);
        self.task_ids.insert(id, idx);
        proof {
            let c0 = old(self).tasks.capacity();
            let c1 = pre.tasks.capacity();
            let len0 = mid.pages@.len() as int;
            let len1 = pre.pages@.len() as int;
            lemma_div64(idx as int);
            assert(idx as int / 64 < len1);
            assert(idx < len1 * 64);
            if len1 == len0 {
                if c1 == c0 + 1 {
                    assert(idx as int == c0);
                    assert(c0 + 1 <= len0 * 64);
                }
            } else {
                assert((len1 - 1) * 64 <= idx);
                if c1 == c0 {
                    assert(idx < c0);
                    assert(false);
                }
                assert(c1 == idx + 1);
            }
            assert(c1 <= len1 * 64);
            assert(len1 * 64 < c1 + 64);
            assert(final(self).slot_notified_at(idx as int));
            assert(!final(self).slot_completed_at(idx as int));
            assert(!final(self).slot_dropped_at(idx as int));
            assert forall|j: int|
                #![trigger pre.slot_notified_at(j)]
                #![trigger pre.slot_completed_at(j)]
                #![trigger pre.slot_dropped_at(j)]
                old(self).num_slots() <= j < pre.num_slots() implies !pre.slot_notified_at(j)
                && !pre.slot_completed_at(j) && !pre.slot_dropped_at(j) by {
                lemma_div64(j);
                assert(len0 <= j / 64 < len1);
            }
            assert forall|j: int|
                #![trigger final(self).slot_notified_at(j)]
                #![trigger final(self).slot_completed_at(j)]
                #![trigger final(self).slot_dropped_at(j)]
                0 <= j < final(self).num_slots() && j != idx as int implies final(self).slot_notified_at(j) == pre.slot_notified_at(j) && final(self).slot_completed_at(j)
                == pre.slot_completed_at(j) && final(self).slot_dropped_at(j)
                == pre.slot_dropped_at(j) by {
                assert(j / 64 != p || j % 64 != k as int);
                assert(final(self).pages@[j / 64] == pre.pages@[j / 64] || j / 64 == p as int);
            }
            assert forall|j: int|
                #![trigger pre.slot_notified_at(j)]
                #![trigger pre.slot_completed_at(j)]
                #![trigger pre.slot_dropped_at(j)]
                0 <= j < old(self).num_slots() implies pre.slot_notified_at(j) == old(self).slot_notified_at(j) && pre.slot_completed_at(j) == old(self).slot_completed_at(j)
                && pre.slot_dropped_at(j) == old(self).slot_dropped_at(j) by {
                assert(0 <= j / 64 < mid.pages@.len());
                assert(pre.pages@[j / 64] == mid.pages@[j / 64]);
            }
            assert(final(self).id_map() == old(self).id_map().insert(id, idx));
            assert(final(self).tasks_map() == old(self).tasks_map().insert(idx as int, task));
            assert(final(self).tasks@.dom() =~= old(self).tasks@.dom().insert(idx as int));
            assert(final(self).task_ids@.dom() =~= old(self).task_ids@.dom().insert(id));
            old(self).tasks.lemma_dom_finite();
            vstd::std_specs::hash::axiom_hashmap_view_finite_dom(old(self).task_ids);
            assert(final(self).wf());
        }
        Some(id)
    }

    /// Removes the task named by `task_id` and returns it, clearing its
    /// readiness bits and freeing its slot. Returns `None`, changing
    /// nothing, when no resident task has that id.
    pub fn remove(&mut self, task_id: u64) -> (r: Option<T>)
        requires
            old(self).wf(),
        ensures
            final(self).wf(),
            final(self).polled() == old(self).polled(),
            final(self).num_slots() == old(self).num_slots(),
            !old(self).live(task_id) ==> r is None && *final(self) == *old(self),
            old(self).live(task_id) ==> {
                &&& r == Some(old(self).tasks_map()[old(self).slot_of(task_id)])
                &&& final(self).id_map() == old(self).id_map().remove(task_id)
                &&& final(self).tasks_map() == old(self).tasks_map().remove(
                    old(self).slot_of(task_id),
                )
                &&& !final(self).slot_notified_at(old(self).slot_of(task_id))
                &&& !final(self).slot_completed_at(old(self).slot_of(task_id))
                &&& forall|idx: int|
                    0 <= idx < old(self).num_slots() && idx != old(self).slot_of(task_id) ==> (
                    #[trigger] final(self).slot_notified_at(idx)) == old(self).slot_notified_at(idx)
                        && final(self).slot_completed_at(idx) == old(self).slot_completed_at(idx)
            },
    {
        if !self.task_ids.contains_key(&task_id) {
            return None;
        }
        let idx = match self.task_ids.remove(&task_id) {
            Some(idx) => idx,
            None => unreached(),
        };
        proof {
            old(self).lemma_live_slot_bounds(task_id);
            lemma_div64(idx as int);
        }
        let p = idx / 64;
        let k = idx % 64;
        assert(p < self.pages@.len()) by {
            lemma_div64(idx as int);
        };
        let page = &mut self.pages[p];
        page.clear(k);
        let t = self.tasks.remove(idx);
        proof {
            assert(!final(self).slot_notified_at(idx as int));
            assert(!final(self).slot_completed_at(idx as int));
            assert(!final(self).slot_dropped_at(idx as int));
            assert forall|j: int|
                #![trigger final(self).slot_notified_at(j)]
                #![trigger final(self).slot_completed_at(j)]
                #![trigger final(self).slot_dropped_at(j)]
                0 <= j < final(self).num_slots() && j != idx as int implies final(self).slot_notified_at(j) == old(self).slot_notified_at(j) && final(self).slot_completed_at(j) == old(self).slot_completed_at(j) && final(self).slot_dropped_at(j) == old(self).slot_dropped_at(j) by {
                assert(j / 64 != p as int || j % 64 != k as int);
                assert(final(self).pages@[j / 64] == old(self).pages@[j / 64] || j / 64
                    == p as int);
            }
            assert(final(self).tasks@.dom() =~= old(self).tasks@.dom().remove(idx as int));
            assert(final(self).task_ids@.dom() =~= old(self).task_ids@.dom().remove(task_id));
            old(self).tasks.lemma_dom_finite();
            vstd::std_specs::hash::axiom_hashmap_view_finite_dom(old(self).task_ids);
            assert(final(self).wf());
        }
        t
    }

    /// Reads the completed bit of the task named by `task_id`, or `None`
    /// when no resident task has that id.
    pub fn has_completed(&self, task_id: u64) -> (r: Option<bool>)
        requires
            self.wf(),
        ensures
            match r {
                Some(b) => self.live(task_id) && b == self.slot_completed_at(
                    self.slot_of(task_id),
                ),
                None => !self.live(task_id),
            },
    {
        let idx = match self.task_ids.get(&task_id) {
            Some(idx) => *idx,
            None => {
                return None;
            },
        };
        proof {
            self.lemma_live_slot_bounds(task_id);
        }
        let p = idx / 64;
        let k = idx % 64;
        assert(p < self.pages@.len()) by {
            lemma_div64(idx as int);
        };
        Some(self.pages[p].has_completed(k))
    }

    /// Invokes the waker of the task named by `task_id`: sets its notified
    /// bit, so the next scan polls it unless it has completed. Waking an
    /// absent id is a no-op, and waking a completed task changes nothing
    /// a scan acts on.
    pub fn wake(&mut self, task_id: u64) -> (r: bool)
        requires
            old(self).wf(),
        ensures
            final(self).wf(),
            final(self).polled() == old(self).polled(),
            final(self).id_map() == old(self).id_map(),
            final(self).tasks_map() == old(self).tasks_map(),
            final(self).num_slots() == old(self).num_slots(),
            r == old(self).live(task_id),
            !r ==> *final(self) == *old(self),
            r ==> final(self).slot_notified_at(old(self).slot_of(task_id)),
            r ==> forall|idx: int|
                0 <= idx < old(self).num_slots() && idx != old(self).slot_of(task_id) ==> (
                #[trigger] final(self).slot_notified_at(idx)) == old(self).slot_notified_at(idx),
            r ==> forall|idx: int|
                0 <= idx < old(self).num_slots() ==> (#[trigger] final(self).slot_completed_at(idx))
                    == old(self).slot_completed_at(idx),
    {
        let idx = match self.task_ids.get(&task_id) {
            Some(idx) => *idx,
            None => {
                return false;
            },
        };
        proof {
            self.lemma_live_slot_bounds(task_id);
        }
        let p = idx / 64;
        let k = idx % 64;
        assert(p < self.pages@.len()) by {
            lemma_div64(idx as int);
        };
        let page = &mut self.pages[p];
        page.set_notified(k);
        proof {
            assert forall|j: int|
                #![trigger final(self).slot_notified_at(j)]
                #![trigger final(self).slot_completed_at(j)]
                #![trigger final(self).slot_dropped_at(j)]
                0 <= j < final(self).num_slots() && j != idx as int implies final(self).slot_notified_at(j) == old(self).slot_notified_at(j) && final(self).slot_completed_at(j) == old(self).slot_completed_at(j) && final(self).slot_dropped_at(j) == old(self).slot_dropped_at(j) by {
                assert(j / 64 != p as int || j % 64 != k as int);
                assert(final(self).pages@[j / 64] == old(self).pages@[j / 64] || j / 64
                    == p as int);
            }
            assert(final(self).slot_completed_at(idx as int) == old(self).slot_completed_at(
                idx as int,
            ));
            assert(final(self).slot_dropped_at(idx as int) == old(self).slot_dropped_at(
                idx as int,
            ));
            assert(final(self).wf());
        }
        true
    }

    /// Polls every task whose slot was notified when the call began, in
    /// ascending slot order. Each page's notified word is taken atomically
    /// before any task of that page runs, so a wake issued during the scan
    /// (a self-wake included) is acted on by the next call, never this
    /// one, and no task runs twice in one call. A task whose poll returns
    /// ready is marked completed and is not polled again until removal.
    ///
    /// The record `polled()` grows by exactly the slots that were ready at
    /// entry, in ascending order, and the returned pairs report, slot by
    /// slot in that same order, what each polled task answered: a slot
    /// whose task returned ready carries the completed bit afterwards, one
    /// that asked to be woken again carries the notified bit, and no other
    /// slot's bits moved.
    pub fn poll(&mut self) -> (r: Vec<(usize, TaskStatus)>)
        requires
            old(self).wf(),
        ensures
            r@.len() == final(self).polled().len() - old(self).polled().len(),
            forall|i: int|
                0 <= i < r@.len() ==> (#[trigger] r@[i]).0 as int == final(self).polled()[old(self).polled().len() + i],
            forall|i: int|
                0 <= i < r@.len() ==> #[trigger] final(self).slot_completed_at(r@[i].0 as int)
                    == (r@[i].1 == TaskStatus::Ready),
            forall|i: int|
                0 <= i < r@.len() ==> #[trigger] final(self).slot_notified_at(r@[i].0 as int) == (
                r@[i].1 == (TaskStatus::Pending { wake: true })),
            final(self).wf(),
            final(self).id_map() == old(self).id_map(),
            final(self).tasks_map().dom() == old(self).tasks_map().dom(),
            final(self).num_slots() == old(self).num_slots(),
            forall|idx: int|
                0 <= idx < old(self).num_slots() && old(self).slot_completed_at(idx)
                    ==> #[trigger] final(self).slot_completed_at(idx),
            old(self).polled().is_prefix_of(final(self).polled()),
            forall|i: int|
                old(self).polled().len() <= i < final(self).polled().len() ==> old(self).is_ready(#[trigger] final(self).polled()[i]),
            forall|i1: int, i2: int|
                old(self).polled().len() <= i1 < i2 < final(self).polled().len() ==> final(self).polled()[i1] < final(self).polled()[i2],
            forall|idx: int|
                #[trigger] old(self).is_ready(idx) ==> final(self).polled().subrange(
                    old(self).polled().len() as int,
                    final(self).polled().len() as int,
                ).contains(idx),
            forall|idx: int|
                old(self).tasks_map().contains_key(idx) && !final(self).polled().subrange(
                    old(self).polled().len() as int,
                    final(self).polled().len() as int,
                ).contains(idx) ==> #[trigger] final(self).tasks_map()[idx] == old(self).tasks_map()[idx],
            forall|idx: int|
                0 <= idx < final(self).num_slots() && #[trigger] final(self).slot_notified_at(idx)
                    ==> final(self).polled().subrange(
                    old(self).polled().len() as int,
                    final(self).polled().len() as int,
                ).contains(idx),
            forall|idx: int|
                0 <= idx < final(self).num_slots() && !final(self).polled().subrange(
                    old(self).polled().len() as int,
                    final(self).polled().len() as int,
                ).contains(idx) ==> #[trigger] final(self).slot_completed_at(idx) == old(self).slot_completed_at(idx),
    {
        let ghost h0 = old(self).history@.len() as int;
        proof {
            assert(self.polled().subrange(0, h0) =~= old(self).polled());
        }
        let mut outcomes: Vec<(usize, TaskStatus)> = Vec::new();
        let mut p: usize = 0;
        while p < self.pages.len()
            invariant
                old(self).wf(),
                self.wf(),
                p <= self.pages@.len(),
                self.task_ids == old(self).task_ids,
                self.pages@.len() == old(self).pages@.len(),
                self.tasks.capacity() == old(self).tasks.capacity(),
                self.tasks@.dom() == old(self).tasks@.dom(),
                forall|j: int|
                    p <= j < self.pages@.len() ==> #[trigger] self.pages@[j] == old(self).pages@[j],
                forall|idx: int|
                    0 <= idx < self.num_slots() && old(self).slot_completed_at(idx)
                        ==> #[trigger] self.slot_completed_at(idx),
                h0 == old(self).polled().len(),
                h0 <= self.polled().len(),
                self.polled().subrange(0, h0) == old(self).polled(),
                forall|i: int|
                    h0 <= i < self.polled().len() ==> old(self).is_ready(
                        #[trigger] self.polled()[i],
                    ),
                forall|i1: int, i2: int|
                    h0 <= i1 < i2 < self.polled().len() ==> self.polled()[i1]
                        < self.polled()[i2],
                forall|i: int|
                    h0 <= i < self.polled().len() ==> #[trigger] self.polled()[i] < p as int
                        * 64,
                forall|idx: int|
                    0 <= idx < p as int * 64 && #[trigger] old(self).is_ready(idx)
                        ==> self.polled().subrange(h0, self.polled().len() as int).contains(
                        idx,
                    ),
                forall|idx: int|
                    old(self).tasks@.contains_key(idx) && !self.polled().subrange(
                        h0,
                        self.polled().len() as int,
                    ).contains(idx) ==> #[trigger] self.tasks@[idx] == old(self).tasks@[idx],
                forall|idx: int|
                    0 <= idx < p as int * 64 && #[trigger] self.slot_notified_at(idx)
                        ==> self.polled().subrange(h0, self.polled().len() as int).contains(
                        idx,
                    ),
                forall|idx: int|
                    0 <= idx < self.num_slots() && !self.polled().subrange(
                        h0,
                        self.polled().len() as int,
                    ).contains(idx) ==> #[trigger] self.slot_completed_at(idx) == old(self).slot_completed_at(idx),
                outcomes@.len() == self.polled().len() - h0,
                forall|i: int|
                    0 <= i < outcomes@.len() ==> (#[trigger] outcomes@[i]).0 as int
                        == self.polled()[h0 + i],
                forall|i: int|
                    0 <= i < outcomes@.len() ==> #[trigger] self.slot_completed_at(
                        outcomes@[i].0 as int,
                    ) == (outcomes@[i].1 == TaskStatus::Ready),
                forall|i: int|
                    0 <= i < outcomes@.len() ==> #[trigger] self.slot_notified_at(
                        outcomes@[i].0 as int,
                    ) == (outcomes@[i].1 == (TaskStatus::Pending { wake: true })),
            decreases self.pages@.len() - p,
        {
            let ghost at_page = *self;
            let word = {
                let pg = &mut self.pages[p];
                pg.take_notified()
            };
            proof {
                assert forall|j: int| 0 <= j < 64 implies #[trigger] bit64(word, j) == old(self).is_ready(p as int * 64 + j) by {
                    lemma_slot_index(p as int, j);
                    assert(at_page.pages@[p as int] == old(self).pages@[p as int]);
                    if bit64(word, j) && !old(self).tasks@.contains_key(p as int * 64 + j) {
                        assert(0 <= p as int * 64 + j < old(self).pages@.len() * 64);
                        assert(at_page.pages@[p as int].is_notified(j));
                        assert(old(self).pages@[p as int].is_notified(j));
                        assert(old(self).slot_notified_at(p as int * 64 + j));
                        assert(false);
                    }
                }
                Self::lemma_other_pages_slots(at_page, *self, p as int);
                assert forall|idx: int|
                    0 <= idx < self.num_slots() && !self.tasks@.contains_key(idx) implies !(
                #[trigger] self.slot_notified_at(idx)) by {
                    lemma_div64(idx);
                    if idx / 64 == p as int {
                        assert(!self.pages@[p as int].is_notified(idx % 64));
                    }
                }
                assert forall|idx: int| 0 <= idx < self.num_slots() implies !(
                #[trigger] self.slot_dropped_at(idx)) by {
                    lemma_div64(idx);
                    if idx / 64 == p as int {
                        assert(self.pages@[p as int].is_dropped(idx % 64)
                            == at_page.pages@[p as int].is_dropped(idx % 64));
                        assert(!at_page.slot_dropped_at(idx));
                    } else {
                        assert(self.slot_dropped_at(idx) == at_page.slot_dropped_at(idx));
                    }
                }
                assert forall|idx: int|
                    0 <= idx < self.num_slots() && at_page.slot_completed_at(idx) implies (
                #[trigger] self.slot_completed_at(idx)) by {
                    lemma_div64(idx);
                    if idx / 64 != p as int {
                        assert(self.slot_completed_at(idx) == at_page.slot_completed_at(idx));
                    }
                }
                assert forall|idx: int|
                    p as int * 64 <= idx < p as int * 64 + 64 implies !(
                #[trigger] self.slot_notified_at(idx)) by {
                    lemma_slot_index(p as int, idx - p as int * 64);
                    assert(!self.pages@[p as int].is_notified(idx - p as int * 64));
                }
                assert forall|idx: int|
                    0 <= idx < p as int * 64 && #[trigger] self.slot_notified_at(idx) implies self.polled().subrange(h0, self.polled().len() as int).contains(idx) by {
                    lemma_div64(idx);
                    assert(self.slot_notified_at(idx) == at_page.slot_notified_at(idx));
                }
                assert forall|idx: int|
                    0 <= idx < self.num_slots() implies #[trigger] self.slot_completed_at(idx)
                    == at_page.slot_completed_at(idx) by {
                    lemma_div64(idx);
                    if idx / 64 == p as int {
                        assert(self.pages@[p as int].is_completed(idx % 64)
                            == at_page.pages@[p as int].is_completed(idx % 64));
                    } else {
                        assert(self.slot_completed_at(idx) == at_page.slot_completed_at(idx));
                    }
                }
            }
            let bits = set_bit_positions(word);
            let mut m: usize = 0;
            while m < bits.len()
                invariant
                    old(self).wf(),
                    p < self.pages@.len(),
                    m <= bits@.len(),
                    self.task_ids == old(self).task_ids,
                    self.pages@.len() == old(self).pages@.len(),
                    self.tasks.wf(),
                    self.tasks.capacity() == old(self).tasks.capacity(),
                    self.tasks.capacity() <= MAX_NUM_TASKS + 1,
                    self.tasks.capacity() <= self.pages@.len() * 64,
                    self.pages@.len() * 64 < self.tasks.capacity() + 64,
                    self.tasks@.dom() == old(self).tasks@.dom(),
                    forall|j: int|
                        0 <= j < 64 ==> #[trigger] bit64(word, j) == old(self).is_ready(
                            p as int * 64 + j,
                        ),
                    forall|j: int|
                        0 <= j < bits@.len() ==> (#[trigger] bits@[j]) < 64 && bit64(
                            word,
                            bits@[j] as int,
                        ),
                    forall|j1: int, j2: int|
                        0 <= j1 < j2 < bits@.len() ==> bits@[j1] < bits@[j2],
                    forall|k: int|
                        0 <= k < 64 && #[trigger] bit64(word, k) ==> bits@.contains(k as usize),
                    forall|j: int|
                        p as int + 1 <= j < self.pages@.len() ==> #[trigger] self.pages@[j] == old(self).pages@[j],
                    forall|idx: int|
                        0 <= idx < self.num_slots() && old(self).slot_completed_at(idx)
                            ==> #[trigger] self.slot_completed_at(idx),
                    forall|idx: int|
                        0 <= idx < self.num_slots() && !self.tasks@.contains_key(idx) ==> !(
                        #[trigger] self.slot_notified_at(idx)),
                    forall|idx: int|
                        0 <= idx < self.num_slots() ==> !(#[trigger] self.slot_dropped_at(idx)),
                    h0 == old(self).polled().len(),
                    h0 <= self.polled().len(),
                    self.polled().subrange(0, h0) == old(self).polled(),
                    forall|i: int|
                        h0 <= i < self.polled().len() ==> old(self).is_ready(
                            #[trigger] self.polled()[i],
                        ),
                    forall|i1: int, i2: int|
                        h0 <= i1 < i2 < self.polled().len() ==> self.polled()[i1]
                            < self.polled()[i2],
                    forall|i: int|
                        h0 <= i < self.polled().len() ==> #[trigger] self.polled()[i] < p as int
                            * 64 + (if m == 0 {
                            0int
                        } else {
                            bits@[m - 1] as int + 1
                        }),
                    forall|idx: int|
                        0 <= idx < p as int * 64 && #[trigger] old(self).is_ready(idx)
                            ==> self.polled().subrange(h0, self.polled().len() as int).contains(
                            idx,
                        ),
                    forall|j: int|
                        0 <= j < m ==> self.polled().subrange(
                            h0,
                            self.polled().len() as int,
                        ).contains(p as int * 64 + (#[trigger] bits@[j]) as int),
                    forall|idx: int|
                        old(self).tasks@.contains_key(idx) && !self.polled().subrange(
                            h0,
                            self.polled().len() as int,
                        ).contains(idx) ==> #[trigger] self.tasks@[idx] == old(self).tasks@[idx],
                    forall|idx: int|
                        0 <= idx < p as int * 64 + 64 && #[trigger] self.slot_notified_at(idx)
                            ==> self.polled().subrange(h0, self.polled().len() as int).contains(
                            idx,
                        ),
                    forall|idx: int|
                        0 <= idx < self.num_slots() && !self.polled().subrange(
                            h0,
                            self.polled().len() as int,
                        ).contains(idx) ==> #[trigger] self.slot_completed_at(idx) == old(self).slot_completed_at(idx),
                    outcomes@.len() == self.polled().len() - h0,
                    forall|i: int|
                        0 <= i < outcomes@.len() ==> (#[trigger] outcomes@[i]).0 as int
                            == self.polled()[h0 + i],
                    forall|i: int|
                        0 <= i < outcomes@.len() ==> #[trigger] self.slot_completed_at(
                            outcomes@[i].0 as int,
                        ) == (outcomes@[i].1 == TaskStatus::Ready),
                    forall|i: int|
                        0 <= i < outcomes@.len() ==> #[trigger] self.slot_notified_at(
                            outcomes@[i].0 as int,
                        ) == (outcomes@[i].1 == (TaskStatus::Pending { wake: true })),
                decreases bits@.len() - m,
            {
                let ghost it0 = *self;
                let ghost delta0 = it0.history@.subrange(h0, it0.history@.len() as int);
                let k = bits[m];
                assert(self.pages@.len() <= 251);
                let idx = p * 64 + k;
                proof {
                    lemma_slot_index(p as int, k as int);
                    assert(bit64(word, k as int));
                    assert(old(self).is_ready(idx as int));
                    assert(self.tasks@.contains_key(idx as int));
                }
                let mut t = self.tasks.take(idx);
                let status = t.poll_task();
                self.tasks.restore(idx, t);
                self.history = Ghost(self.history@.push(idx as int));
                outcomes.push((idx, status));
                match status {
                    TaskStatus::Ready => {
                        let pg = &mut self.pages[p];
                        pg.mark_completed(k);
                    },
                    TaskStatus::Pending { wake } => {
                        if wake {
                            let pg = &mut self.pages[p];
                            pg.set_notified(k);
                        }
                    },
                }
                proof {
                    // what this iteration did to page p's bits
                    assert forall|j: int|
                        0 <= j < 64 && j != k as int implies #[trigger] self.pages@[p as int].is_notified(j) == it0.pages@[p as int].is_notified(j)
                        && self.pages@[p as int].is_completed(j) == it0.pages@[p as int].is_completed(j)
                        && self.pages@[p as int].is_dropped(j) == it0.pages@[p as int].is_dropped(j) by {}
                    assert(self.pages@[p as int].is_completed(k as int)
                        || !it0.pages@[p as int].is_completed(k as int) || self.pages@[p as int].is_completed(k as int) == it0.pages@[p as int].is_completed(k as int));
                    Self::lemma_other_pages_slots(it0, *self, p as int);
                    // slot predicates over the whole bitmap
                    assert forall|j: int|
                        #![trigger self.slot_notified_at(j)]
                        #![trigger self.slot_completed_at(j)]
                        #![trigger self.slot_dropped_at(j)]
                        0 <= j < self.num_slots() && j != idx as int implies self.slot_notified_at(j) == it0.slot_notified_at(j) && self.slot_completed_at(j)
                        == it0.slot_completed_at(j) && self.slot_dropped_at(j)
                        == it0.slot_dropped_at(j) by {
                        lemma_div64(j);
                        if j / 64 == p as int {
                            assert(j % 64 != k as int);
                            assert(self.pages@[j / 64].is_notified(j % 64) == it0.pages@[j
                                / 64].is_notified(j % 64));
                        }
                    }
                    assert(self.slot_completed_at(idx as int) || !it0.slot_completed_at(
                        idx as int,
                    ));
                    assert(self.pages@[p as int].is_dropped(k as int) == it0.pages@[p as int].is_dropped(k as int));
                    assert(!it0.slot_dropped_at(idx as int));
                    assert(!self.slot_dropped_at(idx as int));
                    // the task store changed only at idx
                    assert(self.tasks@.dom() =~= old(self).tasks@.dom());
                    // the poll record grew by exactly idx
                    let dnew = self.polled().subrange(h0, self.polled().len() as int);
                    assert(dnew =~= delta0.push(idx as int));
                    assert(self.polled().subrange(0, h0) =~= old(self).polled());
                    assert forall|i1: int, i2: int|
                        h0 <= i1 < i2 < self.polled().len() implies self.polled()[i1]
                        < self.polled()[i2] by {
                        if i2 < self.polled().len() - 1 {
                            assert(it0.polled()[i1] < it0.polled()[i2]);
                        } else {
                            assert(self.polled()[i1] == it0.polled()[i1]);
                            if m > 0 {
                                assert(it0.polled()[i1] < p as int * 64 + bits@[m - 1] as int
                                    + 1);
                                assert(bits@[m - 1] < bits@[m as int]);
                            }
                        }
                    }
                    assert forall|j: int|
                        0 <= j < m + 1 implies self.polled().subrange(
                        h0,
                        self.polled().len() as int,
                    ).contains(p as int * 64 + (#[trigger] bits@[j]) as int) by {
                        if j < m {
                            let i = choose|i: int|
                                0 <= i < delta0.len() && delta0[i] == p as int * 64
                                    + bits@[j] as int;
                            assert(dnew[i] == delta0[i]);
                        } else {
                            assert(dnew[dnew.len() - 1] == idx as int);
                        }
                    }
                    assert forall|idx2: int|
                        0 <= idx2 < p as int * 64 && #[trigger] old(self).is_ready(idx2) implies self.polled().subrange(h0, self.polled().len() as int).contains(
                        idx2,
                    ) by {
                        let i = choose|i: int|
                            0 <= i < delta0.len() && delta0[i] == idx2;
                        assert(dnew[i] == delta0[i]);
                    }
                    assert forall|idx2: int|
                        old(self).tasks@.contains_key(idx2) && !self.polled().subrange(
                            h0,
                            self.polled().len() as int,
                        ).contains(idx2) implies #[trigger] self.tasks@[idx2] == old(self).tasks@[idx2] by {
                        assert(idx2 != idx as int) by {
                            assert(dnew[dnew.len() - 1] == idx as int);
                        }
                        assert(!delta0.contains(idx2)) by {
                            if delta0.contains(idx2) {
                                let i = choose|i: int|
                                    0 <= i < delta0.len() && delta0[i] == idx2;
                                assert(dnew[i] == delta0[i]);
                            }
                        }
                        assert(self.tasks@[idx2] == it0.tasks@[idx2]);
                    }
                    assert forall|j2: int|
                        0 <= j2 < p as int * 64 + 64 && #[trigger] self.slot_notified_at(j2) implies self.polled().subrange(h0, self.polled().len() as int).contains(j2) by {
                        if j2 == idx as int {
                            assert(dnew[dnew.len() - 1] == idx as int);
                        } else {
                            assert(self.slot_notified_at(j2) == it0.slot_notified_at(j2));
                            let i = choose|i: int| 0 <= i < delta0.len() && delta0[i] == j2;
                            assert(dnew[i] == delta0[i]);
                        }
                    }
                    assert forall|j2: int|
                        0 <= j2 < self.num_slots() && !self.polled().subrange(
                            h0,
                            self.polled().len() as int,
                        ).contains(j2) implies #[trigger] self.slot_completed_at(j2) == old(self).slot_completed_at(j2) by {
                        assert(j2 != idx as int) by {
                            assert(dnew[dnew.len() - 1] == idx as int);
                        }
                        assert(!delta0.contains(j2)) by {
                            if delta0.contains(j2) {
                                let i = choose|i: int| 0 <= i < delta0.len() && delta0[i] == j2;
                                assert(dnew[i] == delta0[i]);
                            }
                        }
                        assert(self.slot_completed_at(j2) == it0.slot_completed_at(j2));
                    }
                    // this slot was neither polled before nor marked in any way
                    assert(!delta0.contains(idx as int)) by {
                        if delta0.contains(idx as int) {
                            let i = choose|i: int|
                                0 <= i < delta0.len() && delta0[i] == idx as int;
                            assert(it0.polled()[h0 + i] == idx as int);
                        }
                    }
                    assert(!it0.slot_notified_at(idx as int));
                    assert(it0.slot_completed_at(idx as int) == old(self).slot_completed_at(
                        idx as int,
                    ));
                    assert(self.slot_completed_at(idx as int) == self.pages@[p as int].is_completed(
                        k as int,
                    ));
                    assert(self.slot_notified_at(idx as int) == self.pages@[p as int].is_notified(
                        k as int,
                    ));
                    assert(it0.slot_notified_at(idx as int) == it0.pages@[p as int].is_notified(
                        k as int,
                    ));
                    assert(it0.slot_completed_at(idx as int) == it0.pages@[p as int].is_completed(
                        k as int,
                    ));
                    assert(self.slot_completed_at(idx as int) == (status == TaskStatus::Ready));
                    assert(self.slot_notified_at(idx as int) == (status == (TaskStatus::Pending {
                        wake: true,
                    })));
                    assert forall|i: int|
                        0 <= i < outcomes@.len() - 1 implies (#[trigger] outcomes@[i]).0 as int
                        != idx as int by {
                        assert(outcomes@[i].0 as int == it0.polled()[h0 + i]);
                        assert(it0.polled()[h0 + i] < p as int * 64 + (if m == 0 {
                            0int
                        } else {
                            bits@[m - 1] as int + 1
                        }));
                    }
                }
                m = m + 1;
            }
            proof {
                assert forall|idx: int|
                    0 <= idx < (p as int + 1) * 64 && #[trigger] old(self).is_ready(idx) implies self.polled().subrange(h0, self.polled().len() as int).contains(idx) by {
                    if idx >= p as int * 64 {
                        lemma_div64(idx);
                        assert(idx / 64 == p as int);
                        let j = idx % 64;
                        assert(bit64(word, j));
                        assert(bits@.contains(j as usize));
                        let jj = choose|jj: int|
                            0 <= jj < bits@.len() && bits@[jj] == j as usize;
                        assert(self.polled().subrange(h0, self.polled().len() as int).contains(
                            p as int * 64 + bits@[jj] as int,
                        ));
                    }
                }
                assert forall|i: int|
                    h0 <= i < self.polled().len() implies #[trigger] self.polled()[i] < (
                p as int + 1) * 64 by {}
                assert(self.wf());
            }
            p = p + 1;
        }
        proof {
            assert forall|idx: int| #[trigger] old(self).is_ready(idx) implies final(self).polled().subrange(h0, final(self).polled().len() as int).contains(idx) by {
                old(self).tasks.lemma_dom_finite();
            }
            assert(final(self).polled().subrange(0, h0) == old(self).polled());
            assert(old(self).polled().is_prefix_of(final(self).polled()));
        }
        outcomes
    }
}

impl<T: CoTask> Default for Scheduler<T> {
    /// A fresh scheduler: no tasks, no ids, no pages; the id generator is
    /// seeded deterministically.
    fn default() -> (r: Self)
        ensures
            r.wf(),
            r.id_map() == Map::<u64, usize>::empty(),
            r.tasks_map() == Map::<int, T>::empty(),
            r.polled() == Seq::<int>::empty(),
            r.num_slots() == 0,
    {
        let r = Scheduler {
            tasks: Slab::new(),
            task_ids: HashMap::new(),
            pages: Vec::new(),
            rng: rng_from_seed(SCHEDULER_SEED),
            history: Ghost(Seq::empty()),
        };
        proof {
            assert(r.tasks@.dom() =~= Set::<int>::empty());
            assert(r.task_ids@.dom() =~= Set::<u64>::empty());
        }
        r
    }
}


} // verus!
