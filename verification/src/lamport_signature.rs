//! The multi-bit Lamport one-time signature scheme.
//!
//! A key pair of capacity `L` holds, for each of `L` bit positions, two
//! secret words and their two hashes.  To sign a message the signer reveals,
//! at each bit position, the secret word that matches the bit; the verifier
//! hashes each revealed word and compares it with the public word for that
//! bit.  A secret key must sign at most one message: nothing here keeps
//! track of that, it is the caller's duty.

use vstd::prelude::*;
use std::marker::PhantomData;
use crate::random::{draw_words, RandomSource};
use crate::transcript::TranscriptHash;
use crate::utils::{bits_of_bytes, bytes_to_bits};

pub mod one_bit_lamport;

verus! {

/// Why an operation of the scheme was refused.
#[derive(Debug, Clone, Copy, PartialEq, Eq, Structural)]
pub enum LamportError {
    /// The message has more bits than the secret key has positions.
    MessageTooLong,
    /// The message has more bits than the public key has positions.
    KeyTooShort,
    /// The signature does not hold one word per message bit.
    SignatureLengthMismatch,
    /// The randomness source ran dry before all secret words were drawn.
    InsufficientRandomness,
}

/// What a secret key holds: for each bit position the word revealed for a
/// zero bit and the word revealed for a one bit.
pub struct SecretKeyView {
    pub x0: Seq<u32>,
    pub x1: Seq<u32>,
}

/// What a public key holds: the hashes of the secret words, position by
/// position.
pub struct PublicKeyView {
    pub y0: Seq<u32>,
    pub y1: Seq<u32>,
}

impl SecretKeyView {
    /// Both columns cover the same positions.
    pub open spec fn wf(self) -> bool {
        self.x0.len() == self.x1.len()
    }

    /// The number of message bits the key can sign.
    pub open spec fn capacity(self) -> nat {
        self.x0.len()
    }
}

impl PublicKeyView {
    /// Both columns cover the same positions.
    pub open spec fn wf(self) -> bool {
        self.y0.len() == self.y1.len()
    }

    /// The number of message bits the key can check.
    pub open spec fn capacity(self) -> nat {
        self.y0.len()
    }
}

/// A secret key: two equally long columns of secret words.
pub struct SecretKey {
    x0: Vec<u32>,
    x1: Vec<u32>,
}

/// A public key: two equally long columns of hashed words.
#[derive(Debug, PartialEq, Eq)]
pub struct PublicKey {
    y0: Vec<u32>,
    y1: Vec<u32>,
}

impl View for SecretKey {
    type V = SecretKeyView;

    closed spec fn view(&self) -> SecretKeyView {
        SecretKeyView { x0: self.x0@, x1: self.x1@ }
    }
}

impl View for PublicKey {
    type V = PublicKeyView;

    closed spec fn view(&self) -> PublicKeyView {
        PublicKeyView { y0: self.y0@, y1: self.y1@ }
    }
}

impl SecretKey {
    #[verifier::type_invariant]
    spec fn columns_match(self) -> bool {
        self.x0@.len() == self.x1@.len()
    }

    /// Builds a secret key from its two columns; `None` when their lengths
    /// differ.
    pub fn new(x0: Vec<u32>, x1: Vec<u32>) -> (key: Option<SecretKey>)
        ensures
            key is Some <==> x0@.len() == x1@.len(),
            key matches Some(k) ==> k@ == (SecretKeyView { x0: x0@, x1: x1@ }),
    {
        if x0.len() == x1.len() {
            Some(SecretKey { x0, x1 })
        } else {
            None
        }
    }

    /// The number of message bits the key can sign.
    pub fn bit_len(&self) -> (len: usize)
        ensures
            self@.wf(),
            len == self@.capacity(),
    {
        proof {
            use_type_invariant(self);
        }
        self.x0.len()
    }

    /// The words revealed for zero bits.
    pub fn x0(&self) -> (column: &Vec<u32>)
        ensures
            column@ == self@.x0,
    {
        &self.x0
    }

    /// The words revealed for one bits.
    pub fn x1(&self) -> (column: &Vec<u32>)
        ensures
            column@ == self@.x1,
    {
        &self.x1
    }
}

impl PublicKey {
    #[verifier::type_invariant]
    spec fn columns_match(self) -> bool {
        self.y0@.len() == self.y1@.len()
    }

    /// Builds a public key from its two columns; `None` when their lengths
    /// differ.
    pub fn new(y0: Vec<u32>, y1: Vec<u32>) -> (key: Option<PublicKey>)
        ensures
            key is Some <==> y0@.len() == y1@.len(),
            key matches Some(k) ==> k@ == (PublicKeyView { y0: y0@, y1: y1@ }),
    {
        if y0.len() == y1.len() {
            Some(PublicKey { y0, y1 })
        } else {
            None
        }
    }

    /// The number of message bits the key can check.
    pub fn bit_len(&self) -> (len: usize)
        ensures
            self@.wf(),
            len == self@.capacity(),
    {
        proof {
            use_type_invariant(self);
        }
        self.y0.len()
    }

    /// The hashes of the words revealed for zero bits.
    pub fn y0(&self) -> (column: &Vec<u32>)
        ensures
            column@ == self@.y0,
    {
        &self.y0
    }

    /// The hashes of the words revealed for one bits.
    pub fn y1(&self) -> (column: &Vec<u32>)
        ensures
            column@ == self@.y1,
    {
        &self.y1
    }
}

/// The signature of a bit string: at each position the secret word that
/// matches the bit.
pub open spec fn signature_of(sk: SecretKeyView, bits: Seq<bool>) -> Seq<u32> {
    Seq::new(
        bits.len(),
        |i: int|
            if bits[i] {
                sk.x1[i]
            } else {
                sk.x0[i]
            },
    )
}

/// What `sign` returns for a key and a message.
pub open spec fn sign_outcome(sk: SecretKeyView, msg: Seq<u8>) -> Result<Seq<u32>, LamportError> {
    if 8 * msg.len() > sk.capacity() {
        Err(LamportError::MessageTooLong)
    } else {
        Ok(signature_of(sk, bits_of_bytes(msg)))
    }
}

/// The public key that belongs to a secret key under the oracle `T`.
pub open spec fn public_of<T: TranscriptHash>(sk: SecretKeyView) -> PublicKeyView {
    PublicKeyView {
        y0: Seq::new(sk.x0.len(), |i: int| T::word_hash(sk.x0[i])),
        y1: Seq::new(sk.x1.len(), |i: int| T::word_hash(sk.x1[i])),
    }
}

/// The secret key made from a run of drawn words: the first `bit_num` words
/// and the `bit_num` that follow them.
pub open spec fn secret_of_draws(draws: Seq<u32>, bit_num: nat) -> SecretKeyView {
    SecretKeyView {
        x0: draws.subrange(0, bit_num as int),
        x1: draws.subrange(bit_num as int, 2 * bit_num as int),
    }
}

/// Every revealed word hashes to the public word for its bit.
pub open spec fn accepts<T: TranscriptHash>(
    pk: PublicKeyView,
    bits: Seq<bool>,
    sig: Seq<u32>,
) -> bool {
    forall|i: int|
        0 <= i < bits.len() ==> T::word_hash(#[trigger] sig[i]) == (if bits[i] {
            pk.y1[i]
        } else {
            pk.y0[i]
        })
}

/// What `verify` returns for a key, a message and a signature.
pub open spec fn verify_outcome<T: TranscriptHash>(
    pk: PublicKeyView,
    msg: Seq<u8>,
    sig: Seq<u32>,
) -> Result<bool, LamportError> {
    if 8 * msg.len() > pk.capacity() {
        Err(LamportError::KeyTooShort)
    } else if sig.len() != 8 * msg.len() {
        Err(LamportError::SignatureLengthMismatch)
    } else {
        Ok(accepts::<T>(pk, bits_of_bytes(msg), sig))
    }
}

/// The basic Lamport signature system over the hash oracle `T`.
pub struct BasicLamportSignature<T: TranscriptHash> {
    phantom: PhantomData<T>,
}

impl<T: TranscriptHash> BasicLamportSignature<T> {
    /// Signs `msg`: one revealed secret word per message bit, in bit order.
    /// The signature is as long as the message has bits, also where the key
    /// could sign more.
    pub fn sign(sk: &SecretKey, msg: &[u8]) -> (result: Result<Vec<u32>, LamportError>)
        ensures
            match result {
                Ok(sig) => sign_outcome(sk@, msg@) == Ok::<Seq<u32>, LamportError>(sig@),
                Err(e) => sign_outcome(sk@, msg@) == Err::<Seq<u32>, LamportError>(e),
            },
    {
        proof {
            use_type_invariant(sk);
        }
        if msg.len() > sk.x0.len() / 8 {
            return Err(LamportError::MessageTooLong);
        }
        let msg_bits = bytes_to_bits(msg);
        let mut sig: Vec<u32> = Vec::new();
        let mut i: usize = 0;
        while i < msg_bits.len()
            invariant
                i <= msg_bits@.len(),
                msg_bits@.len() <= sk.x0@.len(),
                sk.x0@.len() == sk.x1@.len(),
                sig@.len() == i,
                forall|j: int|
                    0 <= j < i ==> sig@[j] == (if msg_bits@[j] {
                        sk.x1@[j]
                    } else {
                        sk.x0@[j]
                    }),
            decreases msg_bits@.len() - i,
        {
            let word = if msg_bits[i] {
                sk.x1[i]
            } else {
                sk.x0[i]
            };
            sig.push(word);
            i += 1;
        }
        assert(sig@ =~= signature_of(sk@, bits_of_bytes(msg@)));
        Ok(sig)
    }

    /// Checks `sig` against `msg` under `pk`.
    ///
    /// A call that cannot be checked at all is an error, never `false`:
    /// `false` is kept for a signature of the right length in which some
    /// revealed word does not hash to the public word for its bit.  Every
    /// position is hashed and compared, whatever the earlier ones gave.
    pub fn verify(pk: &PublicKey, msg: &[u8], sig: Vec<u32>) -> (result: Result<bool, LamportError>)
        ensures
            result == verify_outcome::<T>(pk@, msg@, sig@),
    {
        proof {
            use_type_invariant(pk);
        }
        if msg.len() > pk.y0.len() / 8 {
            return Err(LamportError::KeyTooShort);
        }
        let msg_bits = bytes_to_bits(msg);
        if sig.len() != msg_bits.len() {
            return Err(LamportError::SignatureLengthMismatch);
        }
        let mut all_match = true;
        let mut i: usize = 0;
        while i < msg_bits.len()
            invariant
                i <= msg_bits@.len(),
                msg_bits@.len() <= pk.y0@.len(),
                pk.y0@.len() == pk.y1@.len(),
                sig@.len() == msg_bits@.len(),
                all_match == forall|j: int|
                    0 <= j < i ==> T::word_hash(#[trigger] sig@[j]) == (if msg_bits@[j] {
                        pk.y1@[j]
                    } else {
                        pk.y0@[j]
                    }),
            decreases msg_bits@.len() - i,
        {
            let y_m = if msg_bits[i] {
                pk.y1[i]
            } else {
                pk.y0[i]
            };
            let matches_here = T::hash_to_u32(sig[i]) == y_m;
            all_match = all_match && matches_here;
            i += 1;
        }
        Ok(all_match)
    }

    /// Hashes every word of a column.
    fn hash_column(column: &Vec<u32>) -> (hashed: Vec<u32>)
        ensures
            hashed@ == Seq::new(column@.len(), |i: int| T::word_hash(column@[i])),
    {
        let mut hashed: Vec<u32> = Vec::new();
        let mut i: usize = 0;
        while i < column.len()
            invariant
                i <= column@.len(),
                hashed@.len() == i,
                forall|j: int| 0 <= j < i ==> hashed@[j] == T::word_hash(column@[j]),
            decreases column@.len() - i,
        {
            hashed.push(T::hash_to_u32(column[i]));
            i += 1;
        }
        hashed
    }

    /// Derives the public key of `sk`: the hash of each secret word, in
    /// place.
    pub fn public_key(sk: &SecretKey) -> (pk: PublicKey)
        ensures
            pk@ == public_of::<T>(sk@),
            pk@.wf(),
    {
        proof {
            use_type_invariant(sk);
        }
        let y0 = Self::hash_column(&sk.x0);
        let y1 = Self::hash_column(&sk.x1);
        PublicKey { y0, y1 }
    }

    /// Makes a key pair of capacity `bit_num` from words already drawn: the
    /// first `bit_num` of them become the zero column, the next `bit_num`
    /// the one column, and any that follow are left unused.  Fewer than
    /// `2 * bit_num` words are not enough for a key pair.
    pub fn keys_from_draws(draws: &[u32], bit_num: usize) -> (result: Result<
        (SecretKey, PublicKey),
        LamportError,
    >)
        ensures
            match result {
                Ok((sk, pk)) => {
                    &&& draws@.len() >= 2 * bit_num
                    &&& sk@ == secret_of_draws(draws@, bit_num as nat)
                    &&& pk@ == public_of::<T>(sk@)
                },
                Err(e) => draws@.len() < 2 * bit_num && e == LamportError::InsufficientRandomness,
            },
    {
        if draws.len() / 2 < bit_num {
            return Err(LamportError::InsufficientRandomness);
        }
        let mut x0: Vec<u32> = Vec::new();
        let mut x1: Vec<u32> = Vec::new();
        let mut i: usize = 0;
        while i < bit_num
            invariant
                i <= bit_num,
                draws@.len() >= 2 * bit_num,
                x0@ == draws@.subrange(0, i as int),
                x1@ == draws@.subrange(bit_num as int, bit_num + i),
            decreases bit_num - i,
        {
            x0.push(draws[i]);
            x1.push(draws[bit_num + i]);
            i += 1;
        }
        let sk = SecretKey { x0, x1 };
        let pk = Self::public_key(&sk);
        Ok((sk, pk))
    }

    /// Generates a key pair of capacity `bit_num`, drawing `2 * bit_num`
    /// words from `rng`: first the zero column, then the one column.
    ///
    /// Either every draw succeeds and the pair is returned, or the source
    /// runs dry and nothing is.  A source that never runs dry always gives
    /// a pair.
    pub fn gen<R: RandomSource>(rng: &mut R, bit_num: usize) -> (result: Result<
        (SecretKey, PublicKey),
        LamportError,
    >)
        ensures
            old(rng).never_dry() ==> result is Ok && final(rng).never_dry(),
            match result {
                Ok((sk, pk)) => {
                    &&& sk@.wf()
                    &&& sk@.capacity() == bit_num
                    &&& pk@ == public_of::<T>(sk@)
                },
                Err(e) => e == LamportError::InsufficientRandomness,
            },
    {
        let mut draws: Vec<u32> = Vec::new();
        if !draw_words(rng, bit_num, &mut draws) {
            return Err(LamportError::InsufficientRandomness);
        }
        if !draw_words(rng, bit_num, &mut draws) {
            return Err(LamportError::InsufficientRandomness);
        }
        Self::keys_from_draws(draws.as_slice(), bit_num)
    }
}

/// Completeness: whatever a secret key signs, its public key accepts.
///
/// For every well-formed secret key and every message it can sign, checking
/// the signature that `sign` gives, against the same message and the public
/// key derived from that secret key, gives `true`.
pub proof fn lemma_sign_then_verify<T: TranscriptHash>(sk: SecretKeyView, msg: Seq<u8>)
    requires
        sk.wf(),
    ensures
        sign_outcome(sk, msg) matches Ok(sig) ==> verify_outcome::<T>(public_of::<T>(sk), msg, sig)
            == Ok::<bool, LamportError>(true),
{
}

/// Soundness against a single replaced word: if, in a signature that
/// verifies, the word at one position is replaced by a word with another
/// hash, the result no longer verifies.
pub proof fn lemma_replaced_word_rejected<T: TranscriptHash>(
    pk: PublicKeyView,
    msg: Seq<u8>,
    sig: Seq<u32>,
    position: int,
    word: u32,
)
    requires
        verify_outcome::<T>(pk, msg, sig) == Ok::<bool, LamportError>(true),
        0 <= position < sig.len(),
        T::word_hash(word) != T::word_hash(sig[position]),
    ensures
        verify_outcome::<T>(pk, msg, sig.update(position, word)) == Ok::<bool, LamportError>(
            false,
        ),
{
    let forged = sig.update(position, word);
    assert(forged[position] == word);
}

/// A signature whose length is not the message's bit length never yields a
/// boolean: the outcome is an error, and it is `SignatureLengthMismatch`
/// unless the message is too long for the key in the first place.
pub proof fn lemma_length_mismatch_is_error<T: TranscriptHash>(
    pk: PublicKeyView,
    msg: Seq<u8>,
    sig: Seq<u32>,
)
    requires
        sig.len() != 8 * msg.len(),
    ensures
        verify_outcome::<T>(pk, msg, sig) is Err,
        8 * msg.len() <= pk.capacity() ==> verify_outcome::<T>(pk, msg, sig) == Err::<
            bool,
            LamportError,
        >(LamportError::SignatureLengthMismatch),
{
}

} // verus!
