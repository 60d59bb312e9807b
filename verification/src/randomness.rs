//! Random draws: the election number and the bounded ranges the nodes use.

use vstd::prelude::*;

verus! {

/// The generator that `rand::thread_rng` hands out: opaque here.
#[verifier::external_type_specification]
#[verifier::external_body]
pub struct ExThreadRng(rand::rngs::ThreadRng);

/// `rand::thread_rng` returns a handle to the thread's generator; nothing
/// is claimed of it.
pub assume_specification[ rand::thread_rng ]() -> rand::rngs::ThreadRng;

/// Calls `rand::Rng::gen_range` on `rng` over `low..high`. rand documents
/// that the result lies in the range and that an empty range panics, hence
/// `low < high`. Which number comes back is chance: nothing more is claimed.
#[verifier::external_body]
fn gen_range(rng: &mut rand::rngs::ThreadRng, low: u64, high: u64) -> (r: u64)
    requires
        low < high,
    ensures
        low <= r < high,
{
    rand::Rng::gen_range(rng, low..high)
}

/// A number drawn by the thread's generator from `low..high`.
pub(crate) fn random_in_range(low: u64, high: u64) -> (r: u64)
    requires
        low < high,
    ensures
        low <= r < high,
{
    let mut rng = rand::thread_rng();
    gen_range(&mut rng, low, high)
}

/// Lowest number a peer draws for the election.
pub const ELECTION_NUMBER_MIN: u64 = 1;

/// Bound (exclusive) of the numbers a peer draws for the election.
pub const ELECTION_NUMBER_BOUND: u64 = 100;

/// Draws this peer's number for the leader election, in `1..100`.
pub fn draw_election_number() -> (n: u64)
    ensures
        ELECTION_NUMBER_MIN <= n < ELECTION_NUMBER_BOUND,
{
    random_in_range(ELECTION_NUMBER_MIN, ELECTION_NUMBER_BOUND)
}

} // verus!
