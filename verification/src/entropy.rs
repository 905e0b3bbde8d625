//! The source of randomness behind a draw.

use vstd::prelude::*;

verus! {

/// One machine word from `rand::random`, which reads the thread-local
/// generator that the operating system seeds, and fails where the system
/// has no seed to give. Nothing is claimed of the word: every value may
/// come back, and two calls may differ.
#[verifier::external_body]
pub(crate) fn random_word() -> usize {
    rand::random::<usize>()
}

} // verus!
