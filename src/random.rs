use vstd::prelude::*;

verus! {

#[verifier::external_type_specification]
#[verifier::external_body]
pub struct ExRng(fastrand::Rng);

/// Relies on fastrand::Rng::new: a generator seeded from the thread's generator.
pub assume_specification[ fastrand::Rng::new ]() -> fastrand::Rng;

/// Relies on fastrand::Rng::bool: a random boolean.
pub assume_specification[ fastrand::Rng::bool ](rng: &fastrand::Rng) -> bool;

/// Relies on fastrand::Rng::u64: a number drawn from the inclusive range
/// `low..=high`, which must not be empty.
#[verifier::external_body]
pub(crate) fn random_u64_between(rng: &fastrand::Rng, low: u64, high: u64) -> (r: u64)
    requires
        low <= high,
    ensures
        low <= r <= high,
{
    rng.u64(low..=high)
}

} // verus!
