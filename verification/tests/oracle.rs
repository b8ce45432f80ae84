use lamport_ots::transcript::{
    blake3_tagged_hash, keccak256_tagged_hash, tagged_preimage,
    Blake3TranscriptHash, Keccak256TranscriptHash, TranscriptHash, LAMPORT_TAG,
};
use lamport_ots::utils::u32_from_be_bytes;
use tiny_keccak::Hasher;

fn blake3_reference(tag: &[u8], words: &[u32]) -> u32 {
    let mut hasher = blake3::Hasher::new();
    hasher.update(tag);
    for x in words {
        hasher.update(&x.to_be_bytes());
    }
    let out = hasher.finalize();
    u32::from_be_bytes(out.as_bytes()[0..4].try_into().unwrap())
}

fn keccak_reference(tag: &[u8], words: &[u32]) -> u32 {
    let mut hasher = tiny_keccak::Keccak::v256();
    hasher.update(tag);
    for x in words {
        hasher.update(&x.to_be_bytes());
    }
    let mut out = [0u8; 4];
    hasher.finalize(&mut out);
    u32::from_be_bytes(out)
}

#[test]
fn the_tag_is_the_scheme_tag() {
    assert_eq!(LAMPORT_TAG.as_bytes(), b"lamport signature blake3 hash");
}

#[test]
fn preimage_is_tag_then_big_endian_words() {
    assert_eq!(tagged_preimage(b"ab", &[]), b"ab".to_vec());
    assert_eq!(
        tagged_preimage(b"ab", &[0x0102_0304, 0xffee_ddcc]),
        vec![b'a', b'b', 1, 2, 3, 4, 0xff, 0xee, 0xdd, 0xcc]
    );
    assert_eq!(tagged_preimage(b"", &[7]), vec![0, 0, 0, 7]);
}

#[test]
fn word_from_big_endian_bytes() {
    assert_eq!(u32_from_be_bytes([0x12, 0x34, 0x56, 0x78]), 0x1234_5678);
    assert_eq!(u32_from_be_bytes([0xff, 0xff, 0xff, 0xff]), u32::MAX);
    assert_eq!(u32_from_be_bytes([0, 0, 0, 1]), 1);
}

#[test]
fn blake3_oracle_matches_incremental_hashing() {
    for v in [0u32, 1, 42, 0xdead_beef, u32::MAX] {
        assert_eq!(
            Blake3TranscriptHash::hash_to_u32(v),
            blake3_reference(b"lamport signature blake3 hash", &[v])
        );
    }
    let words = vec![3u32, 1, 4, 1, 5, 9, 2, 6];
    assert_eq!(
        Blake3TranscriptHash::hash_vec_to_u32(words.clone()),
        blake3_reference(b"lamport signature blake3 hash", &words)
    );
    assert_eq!(
        Blake3TranscriptHash::hash_vec_to_u32(vec![]),
        blake3_reference(b"lamport signature blake3 hash", &[])
    );
}

#[test]
fn keccak_oracle_matches_incremental_hashing() {
    for v in [0u32, 1, 42, 0xdead_beef, u32::MAX] {
        assert_eq!(
            Keccak256TranscriptHash::hash_to_u32(v),
            keccak_reference(b"lamport signature blake3 hash", &[v])
        );
    }
    let words = vec![3u32, 1, 4, 1, 5, 9, 2, 6];
    assert_eq!(
        Keccak256TranscriptHash::hash_vec_to_u32(words.clone()),
        keccak_reference(b"lamport signature blake3 hash", &words)
    );
}

#[test]
fn blake3_known_digest_of_empty_input() {
    // BLAKE3 of the empty string starts af 13 49 b9.
    assert_eq!(blake3_tagged_hash("", &[]), 0xaf13_49b9);
}

#[test]
fn keccak_known_digest_of_empty_input() {
    // Keccak-256 of the empty string starts c5 d2 46 01.
    assert_eq!(keccak256_tagged_hash("", &[]), 0xc5d2_4601);
}

#[test]
fn hashing_one_word_is_hashing_a_vector_of_one() {
    for v in [0u32, 7, 1 << 31] {
        assert_eq!(
            Blake3TranscriptHash::hash_to_u32(v),
            Blake3TranscriptHash::hash_vec_to_u32(vec![v])
        );
        assert_eq!(
            Keccak256TranscriptHash::hash_to_u32(v),
            Keccak256TranscriptHash::hash_vec_to_u32(vec![v])
        );
    }
}

#[test]
fn oracles_are_deterministic() {
    assert_eq!(
        Blake3TranscriptHash::hash_to_u32(99),
        Blake3TranscriptHash::hash_to_u32(99)
    );
    assert_eq!(
        Keccak256TranscriptHash::hash_to_u32(99),
        Keccak256TranscriptHash::hash_to_u32(99)
    );
}

#[test]
fn distinct_tags_separate_digests() {
    for v in [0u32, 1, 12345, u32::MAX] {
        assert_ne!(
            blake3_tagged_hash("tag-A", &[v]),
            blake3_tagged_hash("tag-B", &[v])
        );
        assert_ne!(
            keccak256_tagged_hash("tag-A", &[v]),
            keccak256_tagged_hash("tag-B", &[v])
        );
        assert_ne!(
            blake3_tagged_hash("lamport signature blake3 hash", &[v]),
            blake3_tagged_hash("one bit lamport", &[v])
        );
    }
}

#[test]
fn the_two_backends_differ() {
    assert_ne!(
        Blake3TranscriptHash::hash_to_u32(1),
        Keccak256TranscriptHash::hash_to_u32(1)
    );
}

#[test]
fn digest_is_not_the_input() {
    for v in [0u32, 1, 42] {
        assert_ne!(Blake3TranscriptHash::hash_to_u32(v), v);
        assert_ne!(Keccak256TranscriptHash::hash_to_u32(v), v);
    }
}
