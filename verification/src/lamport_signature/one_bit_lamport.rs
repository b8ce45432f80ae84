//! The one-bit Lamport signature: the scheme at its smallest.
//!
//! A key pair holds one secret word per bit value and the hashes of both.
//! The signature of a bit is the secret word for that bit.

use vstd::prelude::*;
use vstd::string::StringSliceAdditionalSpecFns;
use crate::lamport_signature::LamportError;
use crate::random::RandomSource;
use crate::transcript::{blake3_tagged, blake3_tagged_hash};

verus! {

/// The tag under which the one-bit scheme hashes its secret words.
pub const ONE_BIT_TAG: &'static str = "one bit lamport";

/// The secret words: `x0` signs the bit 0, `x1` the bit 1.
pub struct SecretKey {
    pub x0: u32,
    pub x1: u32,
}

/// The hashes of the secret words.
#[derive(Clone, Copy, Debug, PartialEq, Eq, Structural)]
pub struct PublicKey {
    pub y0: u32,
    pub y1: u32,
}

/// The hash of one word under the one-bit tag.
pub open spec fn one_bit_hash(input: u32) -> u32 {
    blake3_tagged(ONE_BIT_TAG.spec_bytes(), seq![input])
}

/// The public key that belongs to a secret key.
pub open spec fn public_of(sk: SecretKey) -> PublicKey {
    PublicKey { y0: one_bit_hash(sk.x0), y1: one_bit_hash(sk.x1) }
}

/// The signature of the bit `m`.
pub open spec fn signature_of(sk: SecretKey, m: bool) -> u32 {
    if m {
        sk.x1
    } else {
        sk.x0
    }
}

/// The revealed word hashes to the public word for the bit `m`.
pub open spec fn accepts(pk: PublicKey, m: bool, sig: u32) -> bool {
    one_bit_hash(sig) == (if m {
        pk.y1
    } else {
        pk.y0
    })
}

/// Hashes one word with BLAKE3 under the one-bit tag.
pub fn blake3_hash(input: u32) -> (digest: u32)
    ensures
        digest == one_bit_hash(input),
{
    let words = [input];
    assert(words@ =~= seq![input]);
    blake3_tagged_hash(ONE_BIT_TAG, words.as_slice())
}

/// The one-bit signature system.
pub struct OneBitLamportSignature;

impl OneBitLamportSignature {
    /// Makes the key pair whose secret words are `x0` and `x1`.
    pub fn keys_from_draws(x0: u32, x1: u32) -> (keys: (SecretKey, PublicKey))
        ensures
            keys.0 == (SecretKey { x0, x1 }),
            keys.1 == public_of(keys.0),
    {
        let y0 = blake3_hash(x0);
        let y1 = blake3_hash(x1);
        (SecretKey { x0, x1 }, PublicKey { y0, y1 })
    }

    /// Generates a key pair from two words drawn from `rng`, the word for
    /// the bit 0 first.
    ///
    /// Either both draws succeed and the pair is returned, or the source
    /// runs dry and nothing is.  A source that never runs dry always gives
    /// a pair.
    pub fn setup<R: RandomSource>(rng: &mut R) -> (result: Result<
        (SecretKey, PublicKey),
        LamportError,
    >)
        ensures
            old(rng).never_dry() ==> result is Ok && final(rng).never_dry(),
            match result {
                Ok((sk, pk)) => pk == public_of(sk),
                Err(e) => e == LamportError::InsufficientRandomness,
            },
    {
        let x0 = match rng.draw() {
            Some(word) => word,
            None => {
                return Err(LamportError::InsufficientRandomness);
            },
        };
        let x1 = match rng.draw() {
            Some(word) => word,
            None => {
                return Err(LamportError::InsufficientRandomness);
            },
        };
        Ok(Self::keys_from_draws(x0, x1))
    }

    /// Signs the bit `m` by revealing the secret word for it.
    pub fn sign(sk: &SecretKey, m: bool) -> (sig: u32)
        ensures
            sig == signature_of(*sk, m),
    {
        if m {
            sk.x1
        } else {
            sk.x0
        }
    }

    /// Checks that `sig` hashes to the public word for the bit `m`.
    pub fn verify(pk: &PublicKey, m: bool, sig: u32) -> (valid: bool)
        ensures
            valid == accepts(*pk, m, sig),
    {
        let f_tau = blake3_hash(sig);
        let y_m = if m {
            pk.y1
        } else {
            pk.y0
        };
        f_tau == y_m
    }
}

/// Completeness: the signature of either bit verifies for that bit under
/// the public key of the signing key.
pub proof fn lemma_sign_then_verify(sk: SecretKey, m: bool)
    ensures
        accepts(public_of(sk), m, signature_of(sk, m)),
{
}

/// The signature of one bit verifies for the other bit only if the two
/// secret words have the same hash.
pub proof fn lemma_cross_check(sk: SecretKey, m: bool)
    ensures
        accepts(public_of(sk), m, signature_of(sk, !m)) <==> one_bit_hash(sk.x0) == one_bit_hash(
            sk.x1,
        ),
{
}

} // verus!
