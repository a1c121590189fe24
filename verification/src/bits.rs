use vstd::prelude::*;
use crate::page::bit64;

verus! {

/// Relies on bit_iter's `BitIter`: iterating a word yields the positions of
/// its set bits in ascending order, each exactly once.
#[verifier::external_body]
pub(crate) fn set_bit_positions(word: u64) -> (r: Vec<usize>)
    ensures
        forall|j: int| 0 <= j < r@.len() ==> (#[trigger] r@[j]) < 64 && bit64(word, r@[j] as int),
        forall|j1: int, j2: int| 0 <= j1 < j2 < r@.len() ==> r@[j1] < r@[j2],
        forall|k: int| 0 <= k < 64 && #[trigger] bit64(word, k) ==> r@.contains(k as usize),
{
    bit_iter::BitIter::from(word).collect()
}

} // verus!
