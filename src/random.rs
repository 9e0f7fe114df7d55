//! The random source that picks a candidate word: rand's thread-local
//! generator.
use vstd::prelude::*;
use rand::rngs::ThreadRng;

verus! {

#[verifier::external_type_specification]
#[verifier::external_body]
pub struct ExThreadRng(rand::rngs::ThreadRng);

/// Relies on `rand::rng`: a handle on the thread-local generator; nothing is
/// known of what it will draw.
pub assume_specification[ rand::rng ]() -> rand::rngs::ThreadRng;

/// Relies on `Rng::random_range` over `0..n`: a value of that half-open
/// range, which must not be empty (the call panics on an empty range).
#[verifier::external_body]
pub(crate) fn random_below(rng: &mut ThreadRng, n: usize) -> (r: usize)
    requires
        n > 0,
    ensures
        r < n,
{
    rand::Rng::random_range(rng, 0..n)
}

} // verus!
