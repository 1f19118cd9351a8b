use rand::Rng;
use vstd::prelude::*;

verus! {

/// A 32-bit word from the thread's generator: `rand::thread_rng` and, on what
/// it returns, `rand::Rng::gen`. Nothing is claimed of the word, so callers
/// are verified for every value of it.
#[verifier::external_body]
pub(crate) fn random_u32() -> (word: u32) {
    rand::thread_rng().gen::<u32>()
}

/// A pointer-sized word from the thread's generator: `rand::thread_rng` and,
/// on what it returns, `rand::Rng::gen`. Nothing is claimed of the word.
#[verifier::external_body]
pub(crate) fn random_usize() -> (word: usize) {
    rand::thread_rng().gen::<usize>()
}

} // verus!
