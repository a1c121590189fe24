use vstd::prelude::*;

verus! {

/// Reads bit `k` of a 64-bit word.
pub open spec fn bit64(word: u64, k: int) -> bool {
    (word >> (k as u64)) & 1u64 == 1u64
}

proof fn lemma_bit_or(word: u64, k: u64, j: u64)
    by (bit_vector)
    requires
        k < 64,
        j < 64,
    ensures
        ((word | (1u64 << k)) >> j) & 1u64 == (if j == k {
            1u64
        } else {
            (word >> j) & 1u64
        }),
{
}

proof fn lemma_bit_clear(word: u64, k: u64, j: u64)
    by (bit_vector)
    requires
        k < 64,
        j < 64,
    ensures
        ((word & !(1u64 << k)) >> j) & 1u64 == (if j == k {
            0u64
        } else {
            (word >> j) & 1u64
        }),
{
}

proof fn lemma_bit_mask3(a: u64, b: u64, c: u64, j: u64)
    by (bit_vector)
    requires
        j < 64,
    ensures
        (((a & !b) & !c) >> j) & 1u64 == (if (a >> j) & 1u64 == 1u64 && (b >> j) & 1u64 != 1u64
            && (c >> j) & 1u64 != 1u64 {
            1u64
        } else {
            0u64
        }),
{
}

proof fn lemma_bit_zero(j: u64)
    by (bit_vector)
    ensures
        (0u64 >> j) & 1u64 == 0u64,
{
}

/// One 64-slot page of task-readiness bits. Slot `k` of the page has a
/// notified bit (the task is ready to be polled), a completed bit (its
/// poll returned ready), and a dropped bit (its storage was abandoned).
pub struct WakerPage {
    notified: u64,
    completed: u64,
    dropped: u64,
}

impl WakerPage {
    pub closed spec fn is_notified(self, k: int) -> bool {
        bit64(self.notified, k)
    }

    pub closed spec fn is_completed(self, k: int) -> bool {
        bit64(self.completed, k)
    }

    pub closed spec fn is_dropped(self, k: int) -> bool {
        bit64(self.dropped, k)
    }

    /// A fresh page: every slot has all three bits clear.
    pub fn new() -> (r: Self)
        ensures
            forall|k: int|
                0 <= k < 64 ==> !r.is_notified(k) && !r.is_completed(k) && !r.is_dropped(k),
    {
        let r = WakerPage { notified: 0u64, completed: 0u64, dropped: 0u64 };
        proof {
            assert forall|k: int| 0 <= k < 64 implies !bit64(0u64, k) by {
                lemma_bit_zero(k as u64);
            }
        }
        r
    }

    /// Prepares slot `k` for a newly inserted task: notified is set so the
    /// task is polled at least once, completed and dropped are cleared.
    pub fn initialize(&mut self, k: usize)
        requires
            k < 64,
        ensures
            forall|j: int|
                0 <= j < 64 ==> #[trigger] final(self).is_notified(j) == (j == k as int
                    || old(self).is_notified(j)),
            forall|j: int|
                0 <= j < 64 ==> #[trigger] final(self).is_completed(j) == (j != k as int
                    && old(self).is_completed(j)),
            forall|j: int|
                0 <= j < 64 ==> #[trigger] final(self).is_dropped(j) == (j != k as int && old(self).is_dropped(j)),
    {
        let ghost n0 = self.notified;
        let ghost c0 = self.completed;
        let ghost d0 = self.dropped;
        self.notified = self.notified | (1u64 << (k as u64));
        self.completed = self.completed & !(1u64 << (k as u64));
        self.dropped = self.dropped & !(1u64 << (k as u64));
        proof {
            assert forall|j: int| 0 <= j < 64 implies final(self).is_notified(j) == (j == k as int
                || old(self).is_notified(j)) && final(self).is_completed(j) == (j != k as int && old(self).is_completed(j)) && final(self).is_dropped(j) == (j != k as int && old(self).is_dropped(j)) by {
                lemma_bit_or(n0, k as u64, j as u64);
                lemma_bit_clear(c0, k as u64, j as u64);
                lemma_bit_clear(d0, k as u64, j as u64);
            }
        }
    }

    /// Marks slot `k` ready to poll, as a waker invocation does.
    pub fn set_notified(&mut self, k: usize)
        requires
            k < 64,
        ensures
            forall|j: int|
                0 <= j < 64 ==> #[trigger] final(self).is_notified(j) == (j == k as int
                    || old(self).is_notified(j)),
            forall|j: int|
                0 <= j < 64 ==> #[trigger] final(self).is_completed(j) == old(self).is_completed(j),
            forall|j: int|
                0 <= j < 64 ==> #[trigger] final(self).is_dropped(j) == old(self).is_dropped(j),
    {
        let ghost n0 = self.notified;
        self.notified = self.notified | (1u64 << (k as u64));
        proof {
            assert forall|j: int| 0 <= j < 64 implies final(self).is_notified(j) == (j == k as int
                || old(self).is_notified(j)) by {
                lemma_bit_or(n0, k as u64, j as u64);
            }
        }
    }

    /// Records that the task in slot `k` has run to completion.
    pub fn mark_completed(&mut self, k: usize)
        requires
            k < 64,
        ensures
            forall|j: int|
                0 <= j < 64 ==> #[trigger] final(self).is_completed(j) == (j == k as int
                    || old(self).is_completed(j)),
            forall|j: int|
                0 <= j < 64 ==> #[trigger] final(self).is_notified(j) == old(self).is_notified(j),
            forall|j: int|
                0 <= j < 64 ==> #[trigger] final(self).is_dropped(j) == old(self).is_dropped(j),
    {
        let ghost c0 = self.completed;
        self.completed = self.completed | (1u64 << (k as u64));
        proof {
            assert forall|j: int| 0 <= j < 64 implies final(self).is_completed(j) == (j == k as int
                || old(self).is_completed(j)) by {
                lemma_bit_or(c0, k as u64, j as u64);
            }
        }
    }

    /// Clears all three bits of slot `k`, freeing it for reuse.
    pub fn clear(&mut self, k: usize)
        requires
            k < 64,
        ensures
            forall|j: int|
                0 <= j < 64 ==> #[trigger] final(self).is_notified(j) == (j != k as int
                    && old(self).is_notified(j)),
            forall|j: int|
                0 <= j < 64 ==> #[trigger] final(self).is_completed(j) == (j != k as int
                    && old(self).is_completed(j)),
            forall|j: int|
                0 <= j < 64 ==> #[trigger] final(self).is_dropped(j) == (j != k as int && old(self).is_dropped(j)),
    {
        let ghost n0 = self.notified;
        let ghost c0 = self.completed;
        let ghost d0 = self.dropped;
        self.notified = self.notified & !(1u64 << (k as u64));
        self.completed = self.completed & !(1u64 << (k as u64));
        self.dropped = self.dropped & !(1u64 << (k as u64));
        proof {
            assert forall|j: int| 0 <= j < 64 implies final(self).is_notified(j) == (j != k as int
                && old(self).is_notified(j)) && final(self).is_completed(j) == (j != k as int && old(self).is_completed(j)) && final(self).is_dropped(j) == (j != k as int && old(self).is_dropped(j)) by {
                lemma_bit_clear(n0, k as u64, j as u64);
                lemma_bit_clear(c0, k as u64, j as u64);
                lemma_bit_clear(d0, k as u64, j as u64);
            }
        }
    }

    /// Atomically takes the notified bits: returns, as a word, the slots
    /// that are notified and neither completed nor dropped, and resets all
    /// notified bits to zero.
    pub fn take_notified(&mut self) -> (r: u64)
        ensures
            forall|j: int|
                0 <= j < 64 ==> #[trigger] bit64(r, j) == (old(self).is_notified(j) && !old(self).is_completed(j) && !old(self).is_dropped(j)),
            forall|j: int| 0 <= j < 64 ==> !#[trigger] final(self).is_notified(j),
            forall|j: int|
                0 <= j < 64 ==> #[trigger] final(self).is_completed(j) == old(self).is_completed(j),
            forall|j: int|
                0 <= j < 64 ==> #[trigger] final(self).is_dropped(j) == old(self).is_dropped(j),
    {
        let ghost n0 = self.notified;
        let ghost c0 = self.completed;
        let ghost d0 = self.dropped;
        let r: u64 = (self.notified & !self.completed) & !self.dropped;
        self.notified = 0u64;
        proof {
            assert forall|j: int| 0 <= j < 64 implies #[trigger] bit64(r, j) == (old(self).is_notified(
                j,
            ) && !old(self).is_completed(j) && !old(self).is_dropped(j)) by {
                lemma_bit_mask3(n0, c0, d0, j as u64);
            }
            assert forall|j: int| 0 <= j < 64 implies !#[trigger] final(self).is_notified(j) by {
                lemma_bit_zero(j as u64);
            }
        }
        r
    }

    /// Reads the completed bit of slot `k`.
    pub fn has_completed(&self, k: usize) -> (r: bool)
        requires
            k < 64,
        ensures
            r == self.is_completed(k as int),
    {
        ((self.completed >> (k as u64)) & 1u64) == 1u64
    }
}

} // verus!
