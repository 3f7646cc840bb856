use vstd::prelude::*;

verus! {

/// The pseudo-random generator the payout pass draws from. To the proofs a
/// draw is an arbitrary value of the stated range: nothing is assumed about
/// which one comes out.
#[verifier::external_type_specification]
#[verifier::external_body]
pub struct ExRng(fastrand::Rng);

/// Relies on fastrand::Rng::with_seed: builds a generator from the given seed.
#[verifier::external_body]
pub(crate) fn rng_with_seed(seed: u64) -> fastrand::Rng {
    fastrand::Rng::with_seed(seed)
}

/// Relies on fastrand::Rng::u128: a draw from `0..=high` lies in that range,
/// and an inclusive range from zero is never empty, so the call cannot panic.
#[verifier::external_body]
pub(crate) fn draw_u128_up_to(rng: &mut fastrand::Rng, high: u128) -> (r: u128)
    ensures
        r <= high,
{
    rng.u128(0..=high)
}

/// Relies on fastrand::Rng::u64: a draw from `0..high` lies below `high`;
/// the range must not be empty, since the call panics on an empty one.
#[verifier::external_body]
pub(crate) fn draw_u64_below(rng: &mut fastrand::Rng, high: u64) -> (r: u64)
    requires
        high > 0,
    ensures
        r < high,
{
    rng.u64(0..high)
}

} // verus!
