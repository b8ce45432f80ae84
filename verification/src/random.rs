//! Randomness as an injected capability.
//!
//! Key generation never reaches for an ambient generator: the caller hands
//! it a `RandomSource` and keeps ownership of it.  Nothing is promised of
//! the words a source yields, so whatever is proved of key generation holds
//! for every source, a seeded generator under test as much as a
//! cryptographic one in production.

use vstd::prelude::*;
use rand::RngCore;

verus! {

/// A supply of random words that may run dry.
pub trait RandomSource {
    /// Whether this source yields a word at every draw, now and ever after.
    /// A source claims nothing of the kind unless it says so itself.
    open spec fn never_dry(&self) -> bool {
        false
    }

    /// Draws the next word, or `None` when the source is exhausted.  A
    /// source that never runs dry yields a word and stays such a source.
    fn draw(&mut self) -> (word: Option<u32>)
        ensures
            old(self).never_dry() ==> word.is_some() && final(self).never_dry(),
    ;
}

/// Declares `rand::rngs::StdRng`, of which nothing is known but its name.
#[verifier::external_type_specification]
#[verifier::external_body]
pub struct ExStdRng(rand::rngs::StdRng);

/// Declares `rand_chacha::ChaCha20Rng`, of which nothing is known but its
/// name.
#[verifier::external_type_specification]
#[verifier::external_body]
pub struct ExChaCha20Rng(rand_chacha::ChaCha20Rng);

/// Calls `RngCore::next_u32` on a `rand::rngs::StdRng`.  Nothing is claimed
/// of the word it returns nor of the generator afterwards.
#[verifier::external_body]
fn std_rng_next_u32(rng: &mut rand::rngs::StdRng) -> u32 {
    rng.next_u32()
}

/// Calls `RngCore::next_u32` on a `rand_chacha::ChaCha20Rng`.  Nothing is
/// claimed of the word it returns nor of the generator afterwards.
#[verifier::external_body]
fn chacha20_rng_next_u32(rng: &mut rand_chacha::ChaCha20Rng) -> u32 {
    rng.next_u32()
}

impl RandomSource for rand::rngs::StdRng {
    /// A `StdRng` never runs dry.
    open spec fn never_dry(&self) -> bool {
        true
    }

    fn draw(&mut self) -> (word: Option<u32>)
        ensures
            word.is_some(),
    {
        Some(std_rng_next_u32(self))
    }
}

impl RandomSource for rand_chacha::ChaCha20Rng {
    /// A `ChaCha20Rng` never runs dry.
    open spec fn never_dry(&self) -> bool {
        true
    }

    fn draw(&mut self) -> (word: Option<u32>)
        ensures
            word.is_some(),
    {
        Some(chacha20_rng_next_u32(self))
    }
}

/// Draws `count` words from `source` and appends them to `words`, in the
/// order drawn.  Returns `false` as soon as the source runs dry; what was
/// drawn until then stays appended.  From a source that never runs dry all
/// `count` words are drawn.
pub fn draw_words<R: RandomSource>(source: &mut R, count: usize, words: &mut Vec<u32>) -> (full:
    bool)
    ensures
        old(source).never_dry() ==> full && final(source).never_dry(),
        full <==> final(words)@.len() == old(words)@.len() + count,
        old(words)@.len() <= final(words)@.len() <= old(words)@.len() + count,
        final(words)@.subrange(0, old(words)@.len() as int) == old(words)@,
{
    let mut i: usize = 0;
    while i < count
        invariant
            i <= count,
            words@.len() == old(words)@.len() + i,
            words@.subrange(0, old(words)@.len() as int) == old(words)@,
            old(source).never_dry() ==> source.never_dry(),
        decreases count - i,
    {
        match source.draw() {
            Some(word) => {
                words.push(word);
            },
            None => {
                return false;
            },
        }
        i += 1;
    }
    true
}

} // verus!
