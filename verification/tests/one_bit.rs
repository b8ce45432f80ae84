use lamport_ots::lamport_signature::one_bit_lamport::{
    blake3_hash, OneBitLamportSignature, PublicKey, SecretKey, ONE_BIT_TAG,
};
use lamport_ots::lamport_signature::LamportError;
use lamport_ots::random::RandomSource;
use rand::{RngCore, SeedableRng};
use rand_chacha::ChaCha20Rng;

struct Dry;

impl RandomSource for Dry {
    fn draw(&mut self) -> Option<u32> {
        None
    }
}

struct Once(Option<u32>);

impl RandomSource for Once {
    fn draw(&mut self) -> Option<u32> {
        self.0.take()
    }
}

#[test]
fn test_one_bit_lamport_signature() {
    let mut prng = ChaCha20Rng::seed_from_u64(2);

    let (sk, pk) = OneBitLamportSignature::setup(&mut prng).unwrap();
    // m = 1
    let m = true;
    let sig = OneBitLamportSignature::sign(&sk, m);
    assert!(
        OneBitLamportSignature::verify(&pk, m, sig),
        "OneBitLamportSignature verify failed when m=1"
    );

    // m = 0
    let m = false;
    let sig = OneBitLamportSignature::sign(&sk, m);
    assert!(
        OneBitLamportSignature::verify(&pk, m, sig),
        "OneBitLamportSignature verify failed when m=0"
    );
}

#[test]
fn one_bit_cross_check_fails() {
    let mut prng = ChaCha20Rng::seed_from_u64(2);
    let (sk, pk) = OneBitLamportSignature::setup(&mut prng).unwrap();
    let for_zero = OneBitLamportSignature::sign(&sk, false);
    let for_one = OneBitLamportSignature::sign(&sk, true);
    assert!(!OneBitLamportSignature::verify(&pk, true, for_zero));
    assert!(!OneBitLamportSignature::verify(&pk, false, for_one));
}

#[test]
fn one_bit_signature_is_the_secret_word() {
    let sk = SecretKey { x0: 10, x1: 20 };
    assert_eq!(OneBitLamportSignature::sign(&sk, false), 10);
    assert_eq!(OneBitLamportSignature::sign(&sk, true), 20);
}

#[test]
fn one_bit_setup_draws_zero_word_first() {
    let mut expected = ChaCha20Rng::seed_from_u64(2);
    let mut prng = ChaCha20Rng::seed_from_u64(2);
    let (sk, pk) = OneBitLamportSignature::setup(&mut prng).unwrap();
    assert_eq!(sk.x0, expected.next_u32());
    assert_eq!(sk.x1, expected.next_u32());
    assert_eq!(pk.y0, blake3_hash(sk.x0));
    assert_eq!(pk.y1, blake3_hash(sk.x1));
}

#[test]
fn one_bit_keys_from_draws() {
    let (sk, pk) = OneBitLamportSignature::keys_from_draws(3, 4);
    assert_eq!((sk.x0, sk.x1), (3, 4));
    assert_eq!((pk.y0, pk.y1), (blake3_hash(3), blake3_hash(4)));
}

#[test]
fn one_bit_setup_fails_when_the_source_runs_dry() {
    assert!(matches!(
        OneBitLamportSignature::setup(&mut Dry),
        Err(LamportError::InsufficientRandomness)
    ));
    assert!(matches!(
        OneBitLamportSignature::setup(&mut Once(Some(1))),
        Err(LamportError::InsufficientRandomness)
    ));
}

#[test]
fn one_bit_hash_uses_its_own_tag() {
    assert_eq!(ONE_BIT_TAG.as_bytes(), b"one bit lamport");
    for input in [0u32, 1, 0xdead_beef] {
        let mut hasher = blake3::Hasher::new();
        hasher.update(b"one bit lamport");
        hasher.update(&input.to_be_bytes());
        let out = hasher.finalize();
        let expected = u32::from_be_bytes(out.as_bytes()[0..4].try_into().unwrap());
        assert_eq!(blake3_hash(input), expected);
    }
}

#[test]
fn one_bit_verify_rejects_a_wrong_word() {
    let (sk, pk) = OneBitLamportSignature::keys_from_draws(1000, 2000);
    assert!(OneBitLamportSignature::verify(&pk, true, sk.x1));
    assert!(!OneBitLamportSignature::verify(&pk, true, sk.x1 + 1));
    let swapped = PublicKey { y0: pk.y1, y1: pk.y0 };
    assert!(OneBitLamportSignature::verify(&swapped, false, sk.x1));
    assert!(!OneBitLamportSignature::verify(&swapped, true, sk.x1));
}

#[test]
fn one_bit_setup_from_rand_generators_always_gives_a_pair() {
    let mut chacha = ChaCha20Rng::seed_from_u64(9);
    let mut std_rng = rand::rngs::StdRng::seed_from_u64(9);
    for _ in 0..50 {
        assert!(OneBitLamportSignature::setup(&mut chacha).is_ok());
        assert!(OneBitLamportSignature::setup(&mut std_rng).is_ok());
    }
}
