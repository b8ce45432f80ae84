//! Hash oracles: tagged hashes from words to one word.
//!
//! Every hash mixes a domain-separation tag in front of its input, so that
//! digests made for one use are never comparable with those of another.
//! The digest functions themselves come from the `blake3` and `tiny-keccak`
//! crates; what is hashed, and how a digest becomes a word, is fixed here.

use vstd::prelude::*;
use vstd::string::StringSliceAdditionalSpecFns;
use tiny_keccak::Hasher;
use crate::utils::{be_bytes, be_word, u32_from_be_bytes, u32_to_be_bytes};

verus! {

/// The words of `words` in order, each as four bytes, most significant
/// byte first.
pub open spec fn words_bytes(words: Seq<u32>) -> Seq<u8> {
    Seq::new(4 * words.len(), |i: int| be_bytes(words[i / 4] as nat, 4)[i % 4])
}

/// What is handed to the digest function: the tag, then the words.
pub open spec fn preimage(tag: Seq<u8>, words: Seq<u32>) -> Seq<u8> {
    tag + words_bytes(words)
}

/// Tags separate preimages: for the same words, two different tags never
/// lay out the same byte string.
pub proof fn lemma_tags_separate_preimages(tag_a: Seq<u8>, tag_b: Seq<u8>, words: Seq<u32>)
    requires
        tag_a != tag_b,
    ensures
        preimage(tag_a, words) != preimage(tag_b, words),
{
    let a = preimage(tag_a, words);
    let b = preimage(tag_b, words);
    if a == b {
        assert(a.len() == tag_a.len() + 4 * words.len());
        assert(b.len() == tag_b.len() + 4 * words.len());
        assert forall|i: int| 0 <= i < tag_a.len() implies tag_a[i] == tag_b[i] by {
            assert(a[i] == tag_a[i]);
            assert(b[i] == tag_b[i]);
        }
        assert(tag_a =~= tag_b);
    }
}

/// Lays out the byte string that a tagged hash digests.
pub fn tagged_preimage(tag: &[u8], words: &[u32]) -> (bytes: Vec<u8>)
    ensures
        bytes@ == preimage(tag@, words@),
{
    let mut bytes: Vec<u8> = Vec::new();
    let mut t: usize = 0;
    while t < tag.len()
        invariant
            t <= tag.len(),
            bytes@ == tag@.take(t as int),
        decreases tag.len() - t,
    {
        bytes.push(tag[t]);
        t += 1;
    }
    let mut i: usize = 0;
    while i < words.len()
        invariant
            i <= words.len(),
            bytes@ == preimage(tag@, words@.take(i as int)),
        decreases words.len() - i,
    {
        let word_bytes = u32_to_be_bytes(words[i]);
        bytes.push(word_bytes[0]);
        bytes.push(word_bytes[1]);
        bytes.push(word_bytes[2]);
        bytes.push(word_bytes[3]);
        proof {
            let prefix = words@.take(i as int);
            let next = words@.take(i + 1);
            assert forall|j: int| 0 <= j < 4 * next.len() implies words_bytes(next)[j] == (if j < 4
                * i {
                words_bytes(prefix)[j]
            } else {
                word_bytes@[j - 4 * i]
            }) by {
                if j < 4 * i {
                    assert(next[j / 4] == prefix[j / 4]);
                } else {
                    assert(j / 4 == i);
                    assert(j % 4 == j - 4 * i);
                }
            }
            assert(bytes@ =~= preimage(tag@, next));
        }
        i += 1;
    }
    assert(words@.take(words@.len() as int) =~= words@);
    bytes
}

/// The 32-byte BLAKE3 digest of a byte string.
pub uninterp spec fn blake3_digest(input: Seq<u8>) -> Seq<u8>;

/// The first four bytes that Keccak-256 puts out for a byte string.
pub uninterp spec fn keccak256_prefix(input: Seq<u8>) -> Seq<u8>;

/// Calls `blake3::hash` and copies the digest out of the `Hash` it returns.
/// The contract claims only that the digest is a function of the input
/// bytes, which it names `blake3_digest`.
#[verifier::external_body]
fn blake3_hash_bytes(input: &[u8]) -> (digest: [u8; 32])
    ensures
        digest@ == blake3_digest(input@),
{
    *blake3::hash(input).as_bytes()
}

/// Runs `tiny_keccak::Keccak::v256` over the input with one `update` and
/// lets `finalize` fill a four-byte buffer.  The contract claims only that
/// those bytes are a function of the input bytes, which it names
/// `keccak256_prefix`.
#[verifier::external_body]
fn keccak256_hash_bytes(input: &[u8]) -> (digest: [u8; 4])
    ensures
        digest@ == keccak256_prefix(input@),
{
    let mut hasher = tiny_keccak::Keccak::v256();
    hasher.update(input);
    let mut digest = [0u8; 4];
    hasher.finalize(&mut digest);
    digest
}

/// The BLAKE3 hash of `words` under `tag`: the first four digest bytes of
/// the preimage, read as a word.
pub open spec fn blake3_tagged(tag: Seq<u8>, words: Seq<u32>) -> u32 {
    be_word(blake3_digest(preimage(tag, words)).subrange(0, 4))
}

/// The Keccak-256 hash of `words` under `tag`: the first four output bytes
/// for the preimage, read as a word.
pub open spec fn keccak256_tagged(tag: Seq<u8>, words: Seq<u32>) -> u32 {
    be_word(keccak256_prefix(preimage(tag, words)))
}

/// Hashes `words` under the domain-separation tag `tag` with BLAKE3.
pub fn blake3_tagged_hash(tag: &str, words: &[u32]) -> (word: u32)
    ensures
        word == blake3_tagged(tag.spec_bytes(), words@),
{
    let bytes = tagged_preimage(tag.as_bytes(), words);
    let digest = blake3_hash_bytes(bytes.as_slice());
    assert(digest@.subrange(0, 4) =~= seq![digest@[0], digest@[1], digest@[2], digest@[3]]);
    u32_from_be_bytes([digest[0], digest[1], digest[2], digest[3]])
}

/// Hashes `words` under the domain-separation tag `tag` with Keccak-256.
pub fn keccak256_tagged_hash(tag: &str, words: &[u32]) -> (word: u32)
    ensures
        word == keccak256_tagged(tag.spec_bytes(), words@),
{
    let bytes = tagged_preimage(tag.as_bytes(), words);
    let digest = keccak256_hash_bytes(bytes.as_slice());
    u32_from_be_bytes(digest)
}

/// The tag under which the Lamport scheme hashes its key material.
pub const LAMPORT_TAG: &'static str = "lamport signature blake3 hash";

/// A hash oracle: a deterministic map from words to one word.
///
/// An implementation names the function it computes with the two spec
/// functions, and its executable methods return exactly that function's
/// values.  Signing and verifying agree because both sides see the same
/// function.
pub trait TranscriptHash {
    /// The hash of one word.
    spec fn word_hash(v: u32) -> u32;

    /// The hash of a sequence of words.
    spec fn words_hash(v: Seq<u32>) -> u32;

    /// Hashes one word.
    fn hash_to_u32(v: u32) -> (digest: u32)
        ensures
            digest == Self::word_hash(v),
    ;

    /// Hashes a sequence of words.
    fn hash_vec_to_u32(v: Vec<u32>) -> (digest: u32)
        ensures
            digest == Self::words_hash(v@),
    ;
}

/// The oracle backed by Keccak-256.
pub struct Keccak256TranscriptHash;

impl TranscriptHash for Keccak256TranscriptHash {
    open spec fn word_hash(v: u32) -> u32 {
        keccak256_tagged(LAMPORT_TAG.spec_bytes(), seq![v])
    }

    open spec fn words_hash(v: Seq<u32>) -> u32 {
        keccak256_tagged(LAMPORT_TAG.spec_bytes(), v)
    }

    fn hash_to_u32(v: u32) -> (digest: u32) {
        let words = [v];
        assert(words@ =~= seq![v]);
        keccak256_tagged_hash(LAMPORT_TAG, words.as_slice())
    }

    fn hash_vec_to_u32(v: Vec<u32>) -> (digest: u32) {
        keccak256_tagged_hash(LAMPORT_TAG, v.as_slice())
    }
}

/// The oracle backed by BLAKE3.
pub struct Blake3TranscriptHash;

impl TranscriptHash for Blake3TranscriptHash {
    open spec fn word_hash(v: u32) -> u32 {
        blake3_tagged(LAMPORT_TAG.spec_bytes(), seq![v])
    }

    open spec fn words_hash(v: Seq<u32>) -> u32 {
        blake3_tagged(LAMPORT_TAG.spec_bytes(), v)
    }

    fn hash_to_u32(v: u32) -> (digest: u32) {
        let words = [v];
        assert(words@ =~= seq![v]);
        blake3_tagged_hash(LAMPORT_TAG, words.as_slice())
    }

    fn hash_vec_to_u32(v: Vec<u32>) -> (digest: u32) {
        blake3_tagged_hash(LAMPORT_TAG, v.as_slice())
    }
}

} // verus!
