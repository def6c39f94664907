//! The source of random words.

use rand::rngs::ThreadRng;
use rand::RngCore;
use vstd::prelude::*;

verus! {

/// `rand::rngs::ThreadRng`, the handle to the calling thread's generator.
/// Nothing is known of its state.
#[verifier::external_type_specification]
#[verifier::external_body]
pub struct ExThreadRng(ThreadRng);

/// Calls `RngCore::next_u32` on the thread's generator.
///
/// Nothing is claimed of the word that comes back: callers are proved for
/// every value of it.
#[verifier::external_body]
pub(crate) fn next_word(rng: &mut ThreadRng) -> (word: u32) {
    rng.next_u32()
}

} // verus!
