use vstd::prelude::*;

verus! {

#[verifier::external_type_specification]
#[verifier::external_body]
pub struct ExSmallRng(rand::rngs::SmallRng);

/// Relies on rand's `SmallRng::seed_from_u64`: builds a small, fast
/// generator from a 64-bit seed.
#[verifier::external_body]
pub(crate) fn rng_from_seed(seed: u64) -> rand::rngs::SmallRng {
    <rand::rngs::SmallRng as rand::SeedableRng>::seed_from_u64(seed)
}

/// Relies on rand's `SeedableRng::try_from_os_rng`: builds a generator
/// seeded from the operating system's entropy source, or reports that none
/// could be had.
#[verifier::external_body]
pub(crate) fn rng_from_os() -> Option<rand::rngs::SmallRng> {
    match <rand::rngs::SmallRng as rand::SeedableRng>::try_from_os_rng() {
        Ok(rng) => Some(rng),
        Err(_) => None,
    }
}

/// Relies on rand's `RngCore::next_u64`: draws a random word. Only the low
/// 16 bits are kept, so the result is below 2^16; nothing else can be said
/// of a random draw.
#[verifier::external_body]
pub(crate) fn rng_draw_id(rng: &mut rand::rngs::SmallRng) -> (r: u64)
    ensures
        r < 0x10000,
{
    rand::RngCore::next_u64(rng) as u16 as u64
}

} // verus!
